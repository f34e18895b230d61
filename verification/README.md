# moat

Moat reviews the security posture of a GitHub organization, user or
repository: 2FA enforcement, branch protection, secret scanning, Dependabot,
workflow permissions, pinned actions, webhooks and more, and reports which
settings are not configured in line with common recommendations.

This crate is the verified core of the tool, written in Verus.

- `src/` — the library, every function with a contract proved by Verus:
  - `checks/` — the checks and what they read: the repository context, how
    per-branch protection is combined, how each answer of the GitHub API is
    turned into a setting (`Fetch`, `Fetch403`), and the check outcomes and
    descriptions.
  - `config.rs` — validation of `moat.toml`.
  - `support/` — YAML documents and their reading (`yaml.rs`), workflow
    files (`workflows.rs`), check outcomes, and the terminal panels (colors,
    wrapping, progress counter).
  - `invocation.rs` — command-line decisions: the command to run, output
    format, audit target, active-repository count, error, information and
    self-update messages.
  - `text.rs` — character-level helpers.
- `tests/` — tests of the library.
- `app/` — the terminal and file side: panel state for the run, terminal
  probing, the `moat.toml` reader, the typed read of the Dependabot file,
  and the output formats.
