# eol_conversion

Which line terminators the files of a working copy get on their way into the
store and out of it, and the conversion itself, verified with Verus.

- `src/text.rs`: line terminators, lines, and the replacement of terminators.
- `src/probe.rs`: whether a file is binary, by its first bytes.
- `src/settings.rs`, `src/eol.rs`: the user's setting, the target EOL that it
  gives a file, and the conversion of the file's content.
- `src/repo_path.rs`, `src/git_attributes.rs`, `src/git.rs`: the strategy that
  follows Git's `core.autocrlf` and `.gitattributes` files.
- `src/local_working_copy.rs`: the choice between the strategies.
- `src/plumbing.rs`: the calls into outside crates, with the contracts that are
  taken from their sources.
- `src/laws.rs`: what holds of the library as a whole.
- `app/`: file, store and stream access around the library.
