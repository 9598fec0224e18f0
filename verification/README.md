# firecracker_sdk

A library for driving Firecracker microVMs, written in Verus: the logic that
decides what to send to the Firecracker API, how to start, jail and stop a
VM, and how to read its replies carries contracts that Verus proves.

## Layout

- `src/` — the verified library.
  - `http`, `api`, `client`: HTTP requests and responses over the API
    socket, per-call timeouts and client options.
  - `machine`, `handlers`, `config`, `drives`, `balloon`, `models`: the
    configuration of a VM, the request bodies, the start sequence of
    handlers and the decisions around starting and stopping.
  - `jailer`, `command_builder`: the jailer and Firecracker command lines,
    the chroot layout and the files linked into it.
  - `kernelargs`: parsing and rendering the kernel command line.
  - `signals`: reference counts of forwarded signals.
  - `fifo`: the state machine that copies a log FIFO to its destination.
  - `cni`: reading a CNI result into the guest's static network setup.
  - `cpu_template`: whether the host CPU supports CPU templates, and the
    answer a process remembers.
  - `laws`: properties that relate several functions.
- `app/` — the parts Verus does not see: sockets, processes, files, signal
  handlers, async plumbing and serde types. Each decision it acts on comes
  from `src/`.
- `tests/` — tests of the library on concrete values.

## Design choices

- Decisions that alternate with I/O (reading a response, copying a FIFO,
  waiting for the VMM, remembering the CPU-template answer) are step
  functions from state and event to the next state and action; `app/` runs
  the loops.
- Kernel arguments are a `Vec` sorted by key, and signal counts a `Vec` of
  pairs, so that their contents and order can be stated (see the types' doc
  comments).
- Outside calls sit behind small trusted wrappers whose contracts say what
  the outside code documents: UUID text (`uuid`), random bytes
  (`getrandom`), netmasks (`ipnet`), log levels (`tracing`), lossy UTF-8
  decoding and `Duration` arithmetic (std).
- Verified functions do not panic: where random bytes cannot be had, a new
  VM id is an error rather than a panic.
