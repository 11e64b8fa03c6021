# llc_updater

A command-line updater for the Limbus Company localisation: it fetches the
releases of a GitHub repository, lets the user pick a release and an asset,
downloads the archive (or reuses a cached copy whose SHA-256 checksum matches the
release digest), extracts it into the game's `LimbusCompany_Data/Lang`
directory, and optionally installs a font package. A lock file (`lock.json`)
records what was downloaded and its checksum.

## Layout

- `src/` — the verified library (Verus). The updater's rules, parsers and
  plans live here with contracts:
  - `text` — trimming, ASCII case folding, prefix/suffix stripping, `/` splitting, path joining;
  - `path` — test-mode flags and the Steam / data directories;
  - `checksum` — SHA-256 checksums as lower-case hex (`sha2`, `hex`);
  - `weburl` — URL parts (`url`) and path segments;
  - `llc` — releases, assets, GitHub repository URLs, the font archive's name;
  - `setting` — lock records, lookup and replacement by name, the cache check
    before a download, with the laws of replacement proved;
  - `conf` — lock-file errors and the checks around reading and writing it;
  - `vdf`, `steam` — Valve KeyValues documents (`keyvalues-parser`), library
    folders, app manifests, the game's entry in the registry;
  - `lang` — installed languages;
  - `install`, `updater` — installation plans for language and font archives,
    the font installation as a step function (what to do next after each
    outcome), archive kinds, questions and their outcomes.
- `app/` — the program: prompts, downloads, archives, the file system, JSON and
  the registry, driving the library; the top-level order of the update itself
  (choose release and asset, download or reuse, install, then the font) is
  written there.
- `tests/` — tests of the library on concrete values.
