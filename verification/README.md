# ravn

Self-healing for Linux fleets: deterministic detection, signed and auditable
remediation, and a local model that explains but never decides.

`src/` is the verified library. Its modules:

- `event`, `command`, `remediation` — the shared data model: events and their
  payloads, remediation templates and their validation and rendering, signed
  command envelopes and action results.
- `crypto`, `keyring` — Ed25519 signing and verification of envelopes, key
  encodings, and a rotation-aware keyring.
- `actuator` — the command state machine of the privileged actuator
  (signature, target validation, preconditions, steps, bounded verify,
  rollback) and its laws.
- `agent`, `pipeline`, `config` — the agent's command pull (at-most-once
  ledger, backoff and circuit breaker), message routing, digests and
  configuration.
- `journal`, `auth`, `failed_unit`, `config_drift`, `update` — the detection
  taps' classification logic.
- `inference` — the model prompt and the parsing of its reply.
- `kube` — cluster-side validation, event mapping and deduplication, node
  condition transitions, pod-log errors.
- `mcp` — the MCP server's configuration, tool catalog, routing and control
  plane paths and errors.
- `eval` — the deterministic tallies behind the explanation-quality rubric, and
  the text of its results page.
- `text` — verified string helpers.

`app/` holds the programs around the library (sockets, HTTP, NATS, D-Bus,
SQLite, the Kubernetes API, floating-point scoring); `tests/` exercises the
library through its public interface.
