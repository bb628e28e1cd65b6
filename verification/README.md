# rv

The core logic of `rv`, a Ruby version and gem manager, written in Verus and
proved against its contracts.

- `src/` is the verified library:
  - `gem_name`: the rules for gem names;
  - `gem_types`: versions, platforms, requirements and dependencies;
  - `lockfile`: the `Gemfile.lock` grammar (`grammar`) and its parser
    (`parser`), which is proved to read exactly what the grammar says,
    including where it reports errors and where it resumes after one; and
    `render`, the lockfile text of dependencies, specs and `GIT` sections;
  - `compact_index`: the compact-index format of gem servers and the walk
    over transitive dependencies;
  - `storage`: blobs, checksum verification and the rules for storage keys;
  - `github`: the headers of GitHub API requests and which URLs may receive
    a token;
  - `ruby_fetcher`: release assets, the RubyInstaller2 releases combined into
    one, `Cache-Control` lifetimes and the caching decisions around fetching
    release lists;
  - `bindings`: the trusted calls into std, `regex`, `url`, `hex`, `sha2` and
    `base64`, each with the contract that the rest relies on.
- `app/` is the I/O around it: environment variables, HTTP, the on-disk
  caches and JSON.
- `tests/` exercise the library on concrete inputs.
