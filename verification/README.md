# Drift Script Manager

A desktop tool that creates, edits and packages spectator scripts for Orion
Drift: it writes a project's directories and `package.json`, keeps the version
in `main.luau` in step with the package, manages custom templates and zips a
script for release.

## Layout

- `src/` is the verified library. Verus proves the contract of every function
  there, except the few that call into std or the `capitalize` crate: their
  contracts are trusted (they are marked `external_body`, and `path_exists`,
  which asks the disk, promises nothing of its answer):
  - `text` — trimming, blank and case-insensitive comparison of strings;
  - `version` — finding the version assignment in a `main.luau` line and
    rewriting it, with laws on reading a written version back;
  - `paths` — path joining and splitting, behind specified calls into std;
  - `package_info`, `drift_project` — the package, locating a project from its
    `package.json`, the checks before creating one, and the paths of creation,
    building and renaming;
  - `template` — template names, their checks and their order;
  - `app_data`, `keywords` — the keyword list kept between runs and the
    keyword picker;
  - `dev` — dev notes (`-- [Dev] …`) reported before a build, and dev blocks
    (`-- [Begin Dev Block]` … `-- [End Dev Block]`) left out of the archive;
  - `state` — the screens and the transitions between them.
- `tests/` runs the library on concrete values.
- `app/` is the window: imgui screens, file dialogs, message boxes, reading
  and writing files, zipping and git. It calls the library for every decision.
