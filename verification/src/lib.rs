//! Integer and selection logic of a library of max-stable spatial models:
//! which model a request names and how many parameters it needs, which
//! pairs of sites a pairwise statistic runs over, and how many Poisson
//! arrivals a simulation may draw.

pub mod model;
pub mod pairs;
pub mod budget;
