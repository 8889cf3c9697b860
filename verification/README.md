# sourcemap_inject

Injects chunk ids and release ids into minified JavaScript builds, and keeps Angular
service-worker manifests in step with the chunks that were rewritten.

- `src/` is the library, verified with Verus. It decides: which id a chunk gets, which release a
  build belongs to, which files a run rewrote, and which manifest entries follow them. It is handed
  what was read and returns what is to be written.
  - `run` walks through an injection run, step by step.
  - `inject`, `pairs` and `ids` hold both release modes, the pairs they work on, and chunk ids.
  - `paths` compares paths part by part.
  - `rewritten` tells which chunks changed.
  - `manifest`, `repair`, `json`, `order` and `urls` repair manifests.
  - `release` and `args` choose the release.
  - The `*_laws` modules state what holds of the library as a whole.
- `app/` reads and writes files, asks git and the release API, and parses arguments.
- `tests/` runs the library on concrete values.

A second run over an injected build rewrites nothing and stays quiet where the release is the same.
Symbol-set mode without a release is no such run: it clears the stamps of the source maps and gives
every chunk a new id each time, also where no flag names a release and every map is stamped.
