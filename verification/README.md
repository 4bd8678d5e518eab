# ef_core

The core of Easy Fortran 77, a tool that builds 1980s Fortran with a modern
gfortran without ever changing the user's files, with its behaviour stated in
`requires`/`ensures` contracts and proved by Verus.

- `src/` is the library: staging the user's
  sources under safe names, every compiler argument, reading the compiler's
  diagnostics, recognising object and library formats (OMF, COFF, ELF),
  the build as a state machine from one step to the next, the filesystem
  guard's containment checks, toolchain bundles and the scrubbed compiler
  environment, the capability probe, configuration schemas, the repository's
  hygiene rules, the checksum decisions of the toolchain fetch, the built-in
  guide, the command line's parsing and reports. All of it is verified
  except the small wrappers around outside calls named in the next point.
- `src/` calls a few outside crates (`toml`, `sha2`, `uuid`, `time`,
  `unicode-normalization`, `dunce`, `which`, `ttf-parser`) through small
  wrappers whose contracts are trusted; each says in its doc comment what it
  claims of the call.
- `app/` is the headless command-line driver: it reads and writes files,
  runs the compiler and prints, and takes every decision from the library.
  It also runs the repository's maintenance tasks: `fetch-toolchain`,
  `fetch-sources`, `check-hygiene`, `gen-icons`, `package` and `version`.
- `tests/` runs the library on concrete values.

The properties that span functions are stated as `law_…` proof functions next
to the code they are about.
