# Notice

A local notification centre for Codex: it receives Codex lifecycle hooks on
`127.0.0.1:3746`, records events in SQLite, holds destructive commands for the user's
approval, shows a traffic light of the running sessions, and notifies a Feishu robot when
an approval is needed or a session finishes successfully.

## Layout

- `src/` is the library, verified with Verus. Each module states its behaviour in
  `requires`/`ensures` contracts over spec functions, and proves it:
  - `hooks`, `hook_laws`: the managed block in `~/.codex/config.toml` (install, uninstall,
    status, the wrapper script), and the laws that installing keeps the user's own
    configuration and that reinstalling changes nothing;
  - `server`, `hook_client`: what a hook payload means, which event it records, when it
    waits for approval, and the replies;
  - `rules`: risk classification of commands, redaction of secrets, aggregation;
  - `storage`: the rules behind the stored data: names of stored values, paging, session
    states and the traffic light;
  - `channels::feishu`: the message, its signature, the request body and delivery retries;
  - `pet`, `mochi_voice`, `codex_usage`, `commands`: the desk pet, the voice device
    protocol and session steps, the choice of the usage reading, the settings page;
  - `text`, `number`, `json`, `codec`: text, decimal numbers, JSON values, and the hashes
    and encodings computed by `sha2`, `hmac`, `hex` and `base64`.
- `app/` is the program around the library: the HTTP service (axum), the database
  (sqlx), the keychain (keyring), HTTP clients (reqwest), the serial port and the speech
  service, and the hook client (`notice hook --token-file <path>`).
- `tests/` exercises the library through its public interface.

## What is not here

The desktop shell (main window, tray menu, traffic-light widget window, login autostart)
needs Tauri and its autostart plugin. They are left out of the dependencies, whose
number they would more than double, so the program in `app/` runs the local service from
the command line instead (`notice`, `notice status`,
`notice install-hooks`, `notice uninstall-hooks`, `notice hook`). The settings operations
the shell would call are in `app/commands.rs`.
