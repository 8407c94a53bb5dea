# weipython

The verified core of a desktop manager for Python, Conda, venv and uv
environments. The library decides what to run and reads what the tools
answer; the application around it runs the programs and touches the disk.

## Layout

- `src/` — the library, checked by Verus:
  - `text`, `path`, `sort`, `json` — text and path operations as the
    standard library performs them, stable sorting, and JSON documents
    (parsed and written by serde_json).
  - `conda`, `conda_list`, `yaml` — Conda commands, where the document of
    `conda env list --json` is looked for and what is made of it, and the
    rewrite of an exported environment for a clone.
  - `package` — pip commands and what pip's answers mean.
  - `venv`, `uv`, `system`, `setup`, `storage` — virtual environments, uv,
    the Pythons of the machine, first-run setup, and where settings live.
  - `upgrade`, `system_flow`, `install_flow` — the order of the work in an
    upgrade (Conda environment Python, Conda, system Python), an uninstall,
    a uv install and a venv creation, as step machines: the library says
    what to do next, the application does it and reports back.
  - `process`, `resolve`, `task` — command lines, the registry of running
    programs (which holds exactly the programs started and not yet ended),
    the order in which a program is searched for, and the store of
    background tasks.
  - `commands`, `domain` — the records exchanged with the window.
- `tests/` — tests of the library on concrete values.
- `app/` — the Tauri application: commands, process spawning, file access,
  and the reading of the tools' JSON into records (serde).
