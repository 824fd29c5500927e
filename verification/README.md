# State machine service

A multi-tenant, event-driven state machine engine: flat machines, parallel regions with joins,
machines inside compound states, guards, timeouts, and webhook or event actions.

`src/` is the library, written and proved in Verus. It decides; it does no I/O. `app/` is the HTTP
service around it, which carries out what the library decides. `tests/` runs the library.

| Module | What it holds |
|---|---|
| `models`, `machine`, `entity` | Definitions and entities, their consistency, how a state is stored and shown |
| `engine`, `guard` | Which transition an event sets off, which joins follow |
| `actions`, `plan` | What a transition comes to: new state, actions, audit log, children, response |
| `transition_core` | The handling of an event step by step, with its child machines |
| `scheduler` | Transitions that fire after a time |
| `invariants` | What every move keeps |
| `routes` | What the endpoints decide |
| `auth`, `errors`, `ingest_tokens`, `db`, `query`, `cache` | The rest of the service |
| `json`, `json_text`, `string_map`, `text` | JSON values, JSON text, maps keyed by text |
| `double`, `rational`, `bignat`, `numeral` | Doubles by their bits, and texts that denote them |

Each exec type has a view, a mathematical value that contracts speak of. Laws that relate several
functions are the public proof functions whose names begin with `law_`.

What is not proved is marked `external_body`, and says so in its comment: JSON text by
`serde_json`, maps by `dashmap`, and the clock.
