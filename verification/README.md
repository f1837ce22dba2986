# confui

The verified core of a schema-driven settings window for applications that
keep their configuration in TOML files.

- `src/` is the library, checked by Verus:
  - `document`, `edit`, `keypath`, `config`: a TOML config store that keeps
    formatting and comments, with dot-separated key paths, renames, deletions
    and enum-to-bool rewrites; `laws` proves how these operations relate.
  - `migrate`: brings a config file up to the schema's version.
  - `validation`: which fields are checked at which paths, what decides a
    choice option, compiling the schema's CEL constraints, and a field's
    error messages and the config's validity from each rule's outcome.
  - `i18n`: UI language resolution and the built-in string tables.
  - `theme`: light and dark palettes, color overrides, CSS hex colors.
  - `single_instance`: the name of the per-config-file lock and the decision
    taken on locking it.
- `app/` is the program around it: command line, file and environment access,
  the serde form of the schema file, the lock itself, and the parts that use
  floating point (numbers in the config, CEL evaluation, derived colors).
  It reads the schema file at run time, takes the lock on Unix only, reads
  the language from the environment only, and opens no window.
- `tests/` runs the library on concrete values.
