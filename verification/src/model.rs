//! Choosing a max-stable model by name and checking its parameter count.

use vstd::prelude::*;

verus! {

/// The three families of stationary max-stable models.
#[derive(Debug, Clone, Copy, PartialEq, Eq, Structural)]
pub enum ModelKind {
    /// Gaussian storm profiles with a 2x2 covariance matrix.
    Smith,
    /// Extremal Gaussian process with a powered-exponential correlation.
    Schlather,
    /// Log-Gaussian process with a power variogram.
    BrownResnick,
}

/// Why a pairwise-likelihood request was refused before any computation.
#[derive(Debug, Clone, Copy, PartialEq, Eq, Structural)]
pub enum ModelError {
    /// The model name is none of the accepted spellings.
    UnknownModelType,
    /// The model was recognised but got the wrong number of parameters.
    WrongParamCount(ModelKind),
}

/// The model that a name denotes: each model accepts its class name and
/// its lower-case short name.
pub open spec fn model_kind_of(name: Seq<char>) -> Option<ModelKind> {
    if name == "SmithModel"@ || name == "smith"@ {
        Some(ModelKind::Smith)
    } else if name == "SchlatherModel"@ || name == "schlather"@ {
        Some(ModelKind::Schlather)
    } else if name == "BrownResnickModel"@ || name == "brownresnick"@ {
        Some(ModelKind::BrownResnick)
    } else {
        None
    }
}

/// Number of parameters a model takes: the four entries of the Smith
/// covariance matrix, or a range and a shape for the other two.
pub open spec fn spec_param_count(kind: ModelKind) -> nat {
    match kind {
        ModelKind::Smith => 4,
        ModelKind::Schlather => 2,
        ModelKind::BrownResnick => 2,
    }
}

/// The outcome of a request naming `name` with `n_params` parameters.
pub open spec fn spec_select_model(name: Seq<char>, n_params: nat) -> Result<ModelKind, ModelError> {
    match model_kind_of(name) {
        None => Err(ModelError::UnknownModelType),
        Some(kind) => if n_params == spec_param_count(kind) {
            Ok(kind)
        } else {
            Err(ModelError::WrongParamCount(kind))
        },
    }
}

/// One of the six accepted spellings of a model name.
pub open spec fn accepted_name(name: Seq<char>) -> bool {
    name == "SmithModel"@ || name == "smith"@ || name == "SchlatherModel"@ || name == "schlather"@
        || name == "BrownResnickModel"@ || name == "brownresnick"@
}

/// Each accepted spelling denotes its own model: the Smith names the Smith
/// model, the Schlather names the Schlather model, the Brown–Resnick names
/// the Brown–Resnick model, and no other text names a model.
pub proof fn lemma_model_names(name: Seq<char>)
    ensures
        (name == "SmithModel"@ || name == "smith"@) ==> model_kind_of(name) == Some(ModelKind::Smith),
        (name == "SchlatherModel"@ || name == "schlather"@) ==> model_kind_of(name) == Some(
            ModelKind::Schlather,
        ),
        (name == "BrownResnickModel"@ || name == "brownresnick"@) ==> model_kind_of(name) == Some(
            ModelKind::BrownResnick,
        ),
        !accepted_name(name) ==> model_kind_of(name) is None,
        model_kind_of(name) is Some ==> accepted_name(name),
{
    reveal_strlit("SmithModel");
    reveal_strlit("smith");
    reveal_strlit("SchlatherModel");
    reveal_strlit("schlather");
    reveal_strlit("BrownResnickModel");
    reveal_strlit("brownresnick");
    // The six spellings have six different lengths, so they are distinct.
    assert("SmithModel"@.len() == 10);
    assert("smith"@.len() == 5);
    assert("SchlatherModel"@.len() == 14);
    assert("schlather"@.len() == 9);
    assert("BrownResnickModel"@.len() == 17);
    assert("brownresnick"@.len() == 12);
}

/// An accepted request selects the model that its name denotes, and only
/// with that model's number of parameters: Smith takes four, Schlather and
/// Brown–Resnick take two. A request refused for its parameter count is
/// refused for the model that its name denotes.
pub proof fn lemma_accepted_model_is_named(name: Seq<char>, n_params: nat)
    ensures
        spec_select_model(name, n_params) matches Ok(k) ==> model_kind_of(name) == Some(k) && n_params
            == spec_param_count(k),
        spec_select_model(name, n_params) matches Err(ModelError::WrongParamCount(k)) ==> model_kind_of(
            name,
        ) == Some(k) && n_params != spec_param_count(k),
        model_kind_of(name) == Some(ModelKind::Smith) ==> (spec_select_model(name, n_params) is Ok
            <==> n_params == 4),
        model_kind_of(name) == Some(ModelKind::Schlather) ==> (spec_select_model(name, n_params) is Ok
            <==> n_params == 2),
        model_kind_of(name) == Some(ModelKind::BrownResnick) ==> (spec_select_model(name, n_params)
            is Ok <==> n_params == 2),
        model_kind_of(name) is None ==> spec_select_model(name, n_params) == Err::<
            ModelKind,
            ModelError,
        >(ModelError::UnknownModelType),
{
}

fn same_text(a: &str, b: &str) -> (r: bool)
    ensures
        r == (a@ == b@),
{
    a.to_owned() == b.to_owned()
}

/// The model that `model_type` names, if any.
pub fn parse_model_type(model_type: &str) -> (r: Option<ModelKind>)
    ensures
        r == model_kind_of(model_type@),
        (model_type@ == "SmithModel"@ || model_type@ == "smith"@) ==> r == Some(ModelKind::Smith),
        (model_type@ == "SchlatherModel"@ || model_type@ == "schlather"@) ==> r == Some(
            ModelKind::Schlather,
        ),
        (model_type@ == "BrownResnickModel"@ || model_type@ == "brownresnick"@) ==> r == Some(
            ModelKind::BrownResnick,
        ),
        r is None <==> !accepted_name(model_type@),
{
    proof {
        lemma_model_names(model_type@);
    }
    if same_text(model_type, "SmithModel") || same_text(model_type, "smith") {
        Some(ModelKind::Smith)
    } else if same_text(model_type, "SchlatherModel") || same_text(model_type, "schlather") {
        Some(ModelKind::Schlather)
    } else if same_text(model_type, "BrownResnickModel") || same_text(model_type, "brownresnick") {
        Some(ModelKind::BrownResnick)
    } else {
        None
    }
}

impl ModelKind {
    /// Number of parameters this model takes.
    pub fn param_count(&self) -> (r: usize)
        ensures
            r == spec_param_count(*self),
            *self == ModelKind::Smith ==> r == 4,
            *self == ModelKind::Schlather ==> r == 2,
            *self == ModelKind::BrownResnick ==> r == 2,
    {
        match self {
            ModelKind::Smith => 4,
            ModelKind::Schlather => 2,
            ModelKind::BrownResnick => 2,
        }
    }
}

/// Decides which model a pairwise-likelihood request uses: the name is
/// checked first, so an unknown name is refused whatever the parameters;
/// a known name is then refused unless it comes with exactly as many
/// parameters as that model takes.
pub fn select_model(model_type: &str, n_params: usize) -> (r: Result<ModelKind, ModelError>)
    ensures
        r == spec_select_model(model_type@, n_params as nat),
        r is Ok <==> (model_kind_of(model_type@) is Some
            && n_params == spec_param_count(model_kind_of(model_type@).unwrap())),
        r == Err::<ModelKind, ModelError>(ModelError::UnknownModelType) <==> model_kind_of(model_type@) is None,
        r matches Ok(k) ==> model_kind_of(model_type@) == Some(k) && n_params == spec_param_count(k),
        r matches Err(ModelError::WrongParamCount(k)) ==> model_kind_of(model_type@) == Some(k)
            && n_params != spec_param_count(k),
        (model_type@ == "SmithModel"@ || model_type@ == "smith"@) ==> r == (if n_params == 4 {
            Ok(ModelKind::Smith)
        } else {
            Err(ModelError::WrongParamCount(ModelKind::Smith))
        }),
        (model_type@ == "SchlatherModel"@ || model_type@ == "schlather"@) ==> r == (if n_params
            == 2 {
            Ok(ModelKind::Schlather)
        } else {
            Err(ModelError::WrongParamCount(ModelKind::Schlather))
        }),
        (model_type@ == "BrownResnickModel"@ || model_type@ == "brownresnick"@) ==> r == (if n_params
            == 2 {
            Ok(ModelKind::BrownResnick)
        } else {
            Err(ModelError::WrongParamCount(ModelKind::BrownResnick))
        }),
        !accepted_name(model_type@) ==> r == Err::<ModelKind, ModelError>(ModelError::UnknownModelType),
{
    proof {
        lemma_model_names(model_type@);
        lemma_accepted_model_is_named(model_type@, n_params as nat);
    }
    match parse_model_type(model_type) {
        None => Err(ModelError::UnknownModelType),
        Some(kind) => {
            if n_params == kind.param_count() {
                Ok(kind)
            } else {
                Err(ModelError::WrongParamCount(kind))
            }
        },
    }
}

/// The text with which a refused request is answered.
pub open spec fn spec_error_message(err: ModelError) -> Seq<char> {
    match err {
        ModelError::UnknownModelType => "unknown model_type"@,
        ModelError::WrongParamCount(ModelKind::Smith) => "SmithModel needs 4 covariance params"@,
        ModelError::WrongParamCount(ModelKind::Schlather) => "SchlatherModel needs 2 params"@,
        ModelError::WrongParamCount(ModelKind::BrownResnick) => "BrownResnickModel needs 2 params"@,
    }
}

impl ModelError {
    /// The text with which this refusal is answered.
    pub fn message(&self) -> (r: String)
        ensures
            r@ == spec_error_message(*self),
            *self == ModelError::UnknownModelType ==> r@ == "unknown model_type"@,
            *self == ModelError::WrongParamCount(ModelKind::Smith) ==> r@
                == "SmithModel needs 4 covariance params"@,
            *self == ModelError::WrongParamCount(ModelKind::Schlather) ==> r@
                == "SchlatherModel needs 2 params"@,
            *self == ModelError::WrongParamCount(ModelKind::BrownResnick) ==> r@
                == "BrownResnickModel needs 2 params"@,
    {
        match self {
            ModelError::UnknownModelType => "unknown model_type".to_owned(),
            ModelError::WrongParamCount(ModelKind::Smith) => "SmithModel needs 4 covariance params".to_owned(),
            ModelError::WrongParamCount(ModelKind::Schlather) => "SchlatherModel needs 2 params".to_owned(),
            ModelError::WrongParamCount(ModelKind::BrownResnick) => "BrownResnickModel needs 2 params".to_owned(),
        }
    }
}

} // verus!
