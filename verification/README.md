# Gaea

The data model of a Minecraft resource and data pack editor, written in
Verus: the library's functions carry `requires`/`ensures` contracts that
Verus proves. Where a result comes from a provider the user supplies (file
system, archive reader and writer, commands), the contracts state it in
terms of what that provider may answer.

- `src/` — the library:
  - `mc_version`, `version_macro`, `version_definitions`, `mc_versions`:
    releases, pack formats, and the text that defines which releases each
    pack format covers (with its expansion and a sorted list of releases).
  - `data`: the domain model (projects, pack metadata, resource locations,
    the pack format tables), the serialized forms (`pack.mcmeta`, packs in zip
    archives), and the adapters between them.
  - `repositories`: the adapter registry and the open projects.
  - `services`: translations (including reading the language folder),
    undo stacks, clean path names, clean-up after failed archive writes, and
    the project operations (create, close, import from and export to
    archives) over file-system and archive providers.
  - `editor`, `header`, `version`, `app_context`: the text editor's state
    machine and highlighter bookkeeping, the header's texts, and the
    editor's release names.
- `tests/` — tests of the library.
- `app/` — a small command-line program: disk-backed providers (with a
  chunked file reader), JSON reading and writing of pack metadata, and
  argument handling.
