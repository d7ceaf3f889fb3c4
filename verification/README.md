# dockpot

The verified core of Dockpot, a web manager for Docker Compose stacks.

- `src/` is the library, written in Verus: every function carries a contract
  and is proved against it. It holds the rules of the server: converting a
  `docker run` command line into a compose file, filling compose and label
  templates, describing containers, reading the settings, the OIDC login
  flow and the session cookie, notifications, git synchronisation decisions,
  log history and backups.
- `tests/` runs the library on concrete values.
- `app/` is the server around it: the HTTP API (axum), the Docker daemon
  (bollard), the SQLite database, git repositories (libgit2) and outbound
  HTTP requests.
