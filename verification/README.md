# TTstack

A lightweight private cloud for developers and small teams: a central
controller places VMs and containers on a fleet of hosts, an agent on each
host runs them (QEMU/KVM, Firecracker and Docker/Podman on Linux; bhyve and
jails on FreeBSD), and a command-line client drives the controller.

## Layout

- `src/` — the verified library (Verus). It holds the decisions of every
  component, each with a contract: the data model and name validation,
  VM placement (best fit by free memory), the agent's admission checks,
  address and port allocation and resource accounting, environment expiry,
  host registration and fleet totals, the CLI's configuration file and
  request building, deployment unit files and setup scripts, the command
  lines of every engine, storage backend and firewall, image recipes, and
  the framing of the remote-execution protocol. Laws that relate several
  functions are public proof functions (`lemma_*`).
- `tests/` — tests of the library on concrete values.
- `app/` — the programs around the library: HTTP servers and clients,
  SQLite persistence, process execution, SSH deployment and image builds.
  One executable acts as `tt-agent`, `tt-ctl`, `tt-rexec` or `tt`,
  depending on the name it is installed under.
