# pyo3_stub_gen_derive

The decisions behind the `#[gen_stub_*]` procedural macros of pyo3-stub-gen,
written in Verus and proved against their contracts: which settings an
attribute carries, how a Rust function, method, class or enum shows in a
Python stub, how Python stubs written by hand are read, and what metadata is
generated for each parameter and member.

Layout:

- `src/` — the verified library. Rust items, attributes, token trees and
  Python stubs are read into plain models (`item`, `attr`, `tokens`,
  `python`, `python_stub`); the modules named after the macros (`pyclass`,
  `pymethods`, `pyfunction`, `stub_parse`, `type_alias`, ...) state and
  prove what each one yields. Calls into `syn`, `heck`, `indexmap` and
  `rustpython-parser` stand behind small trusted wrappers in `rust_syntax`,
  `renaming`, `imports` and `python_parse`; the stub readers take the
  stub's text, dedent it and parse it themselves.
- `app/` — the macro front end: it parses token streams with `syn`,
  converts them into the library's models, and writes the library's
  results back as tokens with `quote`.
- `tests/` — tests on concrete inputs, run against the compiled library.

Scope:

- An enum under `#[pyclass]` is read as a simple enum (`PyEnumInfo`) or,
  variant by variant, as a complex enum (`PyComplexEnumInfo`). The library
  has no third reading of an enum as one class that holds its struct
  variants as nested classes: `PyClassInfo` has no `classes` field and no
  conversion from `ItemEnum`. In pyo3-stub-gen's derive sources that
  reading calls a three-argument `VariantInfo::from_variant` and matches on
  `VariantInfo::Tuple` and `VariantInfo::Struct`, which the `VariantInfo`
  there (two arguments, other variants) does not have; that code does not
  compile, so it fixes no behaviour to state or prove.
