# learning_lm

Least squares, QR, SVD and Levenberg-Marquardt examples (curve fitting, camera
pose estimation, triangulation, bundle adjustment), split in two parts.

`src/` is the verified library. It holds everything in these routines that does
not compute with floating-point numbers, each function with a contract proved
by Verus:

- `matrix`: a dense row-major matrix `Mat<T>` over any copyable element type —
  building (`zeros`, `identity`, `diag`, `from_fn`), `transpose`, columns and
  column segments, row swaps, column selection, the upper triangle, block
  copies.
- `order`: the integer key of an `f64` bit pattern in the IEEE 754 total order,
  the pivot choice (last index of the largest key) and the stable descending
  sort used to order singular values.
- `dof`: which of the six pose parameters an estimation optimises, the
  expansion of a reduced step back to six parameters, and the input check of
  pose estimation (`check_pose_input`).
- `bundle`: the column layout of the unknowns in bundle adjustment, the input
  check that builds it (`BundleLayout::checked`), and the observations of a point.
- `triangulation`: the input check of triangulation (`check_views`).
- `shape`: the dimension checks of Gaussian elimination, QR, SVD, least
  squares and matrix products.

`Mat<T>` keeps its shape invariant as a Verus type invariant, so its methods
ask nothing of callers but in-range indices and sizes that fit in `usize`.

`app/` is ordinary Rust on top of it: the `f64` arithmetic (products, norms,
Gaussian elimination, Householder QR, Jacobi SVD, Gauss-Newton,
Levenberg-Marquardt, camera geometry) and the eleven example programs, which
use the `rand` crate for their data. `app/main.rs` runs the example whose
number (1 to 11) is given as argument, or all of them; each example module
keeps its tests on the floating-point routines.
