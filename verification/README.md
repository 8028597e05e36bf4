# Aegis

Aegis is an agentic browser runtime: a native browser host that a local HTTP control plane
drives. This crate holds its logic as a Verus library, with every function stated by a contract
and proved, and a thin tool around it.

- `src/` is the library. `dom`, `events`, `commands`, `session` and `trace` hold the data and
  the rules on it; `transport` the framing of messages to the host; `runtime` what is known of a
  running browser and what follows from its replies; `api` the control plane; `cli`, `native`
  and `native_build` what the tool decides; `config_store`, `state`, `transfers` and
  `browser_import` what is stored and moved. `json`, `text`, `paths`, `string_map` and `keyed`
  serve the others.
- Calls into other crates and into std that Verus does not know stand behind small wrappers
  whose doc comments say what is taken on trust.
- Properties that span functions are public proof functions named `law_…`.
- `tests/` runs the library from outside.
- `app/` is the tool: arguments, files, processes, HTTP and the calls into the host.
