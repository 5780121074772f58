# maze_ssh

SSH identity orchestration for developers with several Git accounts, written in
Verus: every function of the library carries a contract that the verifier proves.

## Layout

- `src/` — the verified library.
  - `protocol` — the SSH agent wire protocol: framing, decoding, encoding.
  - `crypto`, `vault` — Argon2id key derivation, AES-256-GCM sealing, and the key
    vault (initialise, unlock, import, generate, export, sign, change passphrase).
  - `agent` — the agent's answers and the consent flow for signing requests.
  - `profile`, `profile_store`, `activation`, `repo`, `git` — profiles, the managed
    section of `~/.ssh/config`, activation, repository mappings, git identity.
  - `security`, `pin`, `policy`, `history` — lock state, PIN lockout, signing
    permissions, audit and bridge history logs.
  - `bridge`, `bridge_config`, `relay`, `wsl`, `markers`, `provider`, `health`,
    `pipes`, `bundler` — the WSL agent bridge: relay scripts, shell profile blocks,
    diagnostics, watchdog, provider probes and relay binary downloads.
  - `scanner`, `keys`, `migration` — key discovery, key health, moving keys into
    the vault.
  - `text` — string and line handling with specifications.
- `tests/` — tests of the library on concrete values.
- `app/` — the command-line program: argument parsing, files under `~/.maze-ssh`
  and `~/.ssh`, running `ssh-add`, `git` and `ssh`.

Laws proved about the library stand as public proof functions (`lemma_*`) beside
the functions they speak of.
