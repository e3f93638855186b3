# Omdesky

Controls one Omarchy desktop from another over a tailnet: a stream by Sunshine and Moonlight,
shortcuts that reach the right computer, and an agent on each computer that answers only the
machines on its allowlist.

`src/` is the library. Its functions carry contracts that Verus proves, but for the wrappers of outside
calls, which are trusted and stand where they are called: the UUIDs of `uuid`, the clock of `time`,
the random bytes of `rand` (nothing is claimed of the last two), the keys and values of a TOML
document by `toml`, one field of a JSON object by `serde_json`, and of the standard library
`String::push`, `String::from_utf8` and the debug form of a string. Laws that relate several
functions are public proof functions whose names begin with `law_`.

- `strings`, `scan`, `seqs`, `order`, `wrap`, `text`, `address`: text and sequences.
- `ids`, `domain`, `error_code`, `release`, `protocol`, `ports`: what the computers speak of.
- `access`, `readiness`, `target`, `discovery`, `services`, `pair`, `connect`, `follow_focus`:
  finding a device, pairing with it and running a session.
- `authorize`, `replay`, `pairing`, `session`, `agent`, `startup`: the agent.
- `hyprland`, `input`, `display`, `omarchy`, `systemd`, `moonlight`, `sunshine`, `tailscale`,
  `process`, `agent_client`, `config`, `theme`, `state`, `session_record`, `launcher`: the programs
  and files around it.
- `settings`, `tui`, `screen`, `panels`, `cli`, `doctor`: what people see and press.

Where work alternates with decisions, the library holds a state machine: it names the next action,
and takes the reply. `app/` performs the actions: processes, files, HTTP, the terminal.

`tests/` runs the library on concrete values.
