# nbody

The verified core of a two-dimensional gravity simulation (drawn with nannou).

* `src/pairs.rs` – the `nop × nop` matrix of particle index pairs (built with
  itertools' cartesian product and ndarray's column-major `from_shape_vec`), and the
  matrix of references to every pair of elements of two lists.
* `src/symmetry.rs` – where each entry of a column of a symmetric or antisymmetric
  matrix is read from when only its lower triangle is computed, and which pairs get a
  force at all.
* `src/partners.rs` – which particles act on a particle in the direct-summation update.
* `src/naming.rs` – the particle names `particle0`, `particle1`, … and their distinctness.
* `src/vectors.rs` – component-wise addition and subtraction, generic in the component.
* `app/` – the nannou program, the random initial state and the floating-point force
  arithmetic.
