# pilatus

The verified core of the Pilatus application framework, written in Verus.

- `src/` is the library. Every function in it is verified against its contract:
  name validation and suggestions, device parameters that refer to variables,
  the routing of messages to devices (`device::registry`), errors of requests,
  recipe archives (`archive`) and import strategies (`import`), configuration
  loading and paths (`config`), logos, log file pruning, and the comparison of
  file contents and device files.
- Calls into other crates (`uuid`, `smallvec`, `itertools`, `glob`, `config`)
  and into `std::path` sit behind small trusted wrappers whose contracts are
  stated in their doc comments.
- `tests/` exercises the library on concrete values.
- `app/` is the unverified runtime around it: file and channel I/O, async
  drivers, serde conversions and the traits of other crates.
