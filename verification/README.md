# maxstable

Tools for stationary max-stable spatial models (Smith, Schlather,
Brown–Resnick): densities, extremal coefficients, the F-madogram, a
pairwise likelihood and spectral simulation, offered to Python as the
extension module `_rust`.

- `src/` is the verified library (Verus): choosing a model by name and
  checking its parameter count (`model`), the pairs of sites that pairwise
  statistics run over and the reading of raw site indices (`pairs`), and
  the arrival budget of one simulated replicate (`budget`).
- `app/` is the Python extension: every floating-point computation, the
  random draws and the array plumbing, calling the library for the logic
  above.
- `tests/` runs the library on concrete inputs.
