# lau-reward-hacking-detector

Cohomological reward-hacking detection: the holonomy of an agent's value
1-form around its loop of states reveals local optimisation with global
cycling.

## Layout

- `src/` — the verified library (Verus). It holds the detector's
  combinatorial decisions, each with a contract, plus the laws proved about
  them (early returns on empty inputs stay with the real-valued code):
  - `cochain` — the loop's edges, the coboundary operator δ₀ (incidence
    and difference matrices), which edges can be checked against a vertex
    function;
    laws: the loop is a closed walk, `(δ₀ f)(i, j) = f(j) − f(i)`,
    constants lie in ker δ₀, the image of δ₀ has zero circulation.
  - `dec` — which edge (and orientation) each side of a face reads in the
    discrete exterior calculus; law: exact cochains have zero holonomy.
  - `h1` — the loop structure H¹ is computed on and its channel count: the
    single agent loop is one channel exactly when its holonomy is
    non-trivial; law: an exact value form gives H¹ = 0.
  - `streak`, `divergence`, `conservation` — the counters and sticky flags
    of the local-improvement tracker, the global divergence detector and the
    conservation monitor.
  - `verdict` — the detector's verdict and recommendation; law: hacking is
    flagged iff non-zero holonomy, local improvement and global cycling hold
    together on at least three states.
  - `fleet` — the fleet's agent registry.
- `app/` — the real-valued layer (`f64` states, integrals, nalgebra's SVD,
  serde), which calls the library for every discrete decision.
- `tests/` — tests of the library.
