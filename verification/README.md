# Fundi

The backend of a site-safety service. Camera frames come in, detections of broken safety rules
become incidents, and incidents are attested on Base Sepolia.

- `src/` is the library, verified with Verus. It holds every decision: the debouncing rules engine,
  the reading of database rows and failures, the arguments of a mint and the judgement of its
  outcome, the replies to clients and the checks on the settings. It does no I/O.
- `app/` is the program around it: Postgres, the chain, HTTP and the environment.
- `tests/` exercises the library from outside.

Other crates are called from the library only through small wrappers, each marked
`external_body`, whose comment says what is taken for granted of the call. The readers of pictures
and of contract interfaces panic on some inputs: `picture` and `abi` find these first, and refuse
them.

Confidences and box coordinates are floating-point numbers in a model's report. The library takes a
confidence as a whole number of basis points, and a coordinate as the bits of its `f32`.
