# Belarc Inventory

Workstation inventory, compliance and helpdesk for Windows PCs on a private LAN,
with its rules verified by Verus.

- `src/` is the verified library: the JSON model of what the PowerShell collectors
  report, the compliance score and its breakdown, alerts and incidents, the Markdown
  reports and the diagnosis prompt, the ticket life cycle and its portal accounts,
  the NAS mirror of the ticket folders, the fleet's registration and deduplication,
  and the commands the installers and the agent run. Calls into chrono, sha2,
  base64, bcrypt, uuid, rand and zip go through small trusted wrappers in
  `src/ext.rs`, `src/auth.rs` and `src/models.rs`, each stating what it relies on.
- `app/` is the command-line front end: it reads and writes files, runs the
  commands the library describes, and converts between `serde_json` values and the
  library's `Json`.
- `tests/` exercise the library on concrete values.

The laws of the library are public proof functions named `law_*`.
