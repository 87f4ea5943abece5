# unlim_connector

The verified core of a Windows connector that joins a Minecraft server through
the Unlim CLI, and of the server manager that drives the host's agent over SSH.

`src/` is checked by Verus:

- `text` — whitespace, trimming, words, reading and writing decimal numbers.
- `instances` — the lines of CLI output and the process ids of running instances.
- `status` — instance status reports, which instance is shown, the connector's state.
- `paths` — where Unlim is looked for, the probe of its version, the build per CPU.
- `install` — the list of builds, the size and SHA-256 check of a download, and
  the steps that put a new build in place or roll it back.
- `credential` — the invite key in the system's credential store (`keyring`).
- `connect` — invite keys, the steps of connecting, the commands that query and end
  instances.
- `host` — the manager's allowed operations, its SSH call and its reading of replies.

`app/` holds what runs the steps: environment, processes, HTTP, files, JSON.
