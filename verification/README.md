# perseval_app

The logic of the Perseval trace workbench, verified with Verus.

- `src/` is the library. It decides what the screens of the workbench remember,
  ask for, accept and show: the failure inbox and its investigations, traces as
  a tree and along time, the comparison of two runs, the eval queue, human
  review, calibration and the quality-check studio; under them the text field,
  request numbering, the page cache, orderings, texts and numbers.
- `tests/` runs the library on concrete values.
- `app/` is the GPUI program around it: windows, input, painting, and the calls
  into the service. Each call is made for a request that the library hands out,
  and its answer goes back to the library, which drops it where it is late.

Screens come as plain data: a `render_*` function of the library says what is
shown, `app/` draws it. Floating-point metrics enter the library as their bits;
percentages and durations are computed on exact binary fractions, rounded as
the machine rounds.

What the proofs rest on besides Verus is marked `external_body` or
`assume_specification`: letter case and lossy decoding of the
standard library, grapheme clusters of `unicode-segmentation`, dates of
`chrono`, and JSON of `serde_json`. Each of these items says in its comment what
it claims.
