# cubera

The core of Cubera, a Minecraft launcher, as a library verified with Verus.
The functions under `src/` carry `requires` / `ensures` contracts that Verus
proves, with one exception: the small wrappers marked
`#[verifier::external_body]` (hashing, encodings, regular expressions,
URL encoding, JSON text, the clock, the platform data directory, and two
`std` string calls). Their contracts are trusted, not proved; their doc
comments say what each one claims of the crate it calls, and the ones whose
result depends on the clock or the environment, or that only render an
error, promise nothing of their result.

## Layout

- `src/` — the verified library.
  - `paths`, `text`, `sorting`: data folders and settings, string helpers
    with their specifications, a verified stable sort.
  - `auth`: Microsoft sign-in decisions, offline accounts (version-3
    offline UUIDs), the account list.
  - `manifest`, `download`, `launch`: version profiles and their rules,
    download planning and retries, the launch command line.
  - `forge`, `loaders`, `java_runtime`: mod-loader installers and
    processors, loader listings, managed Java runtimes.
  - `instances`, `commands`: instance metadata, per-instance launch
    settings, the running-process table, duplication.
  - `modrinth`, `mrpack`, `news`, `skin`, `branding`, `http`: content
    search URLs, modpack files, the news feed, player heads, the in-game
    resource pack, HTTP status handling.
  - `digest`: the hashing and encoding crates, behind trusted wrappers.
- `tests/` — tests of the library on concrete values.
- `app/` — a command-line front end that does the network, file and
  process work and asks the library for every decision.
