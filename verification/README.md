# mll

A launcher for local LLM inference engines: the `mlld` daemon starts and stops
engines (vLLM) for configured models, answers a line-based JSON control socket
and forwards OpenAI-style HTTP requests to the engine that serves the requested
model; `mll-ctl` is its command-line client.

- `src/` is the verified library (Verus): the configuration, the control
  protocol's messages, the daemon's bookkeeping of engine instances, ports and
  pending requests, the decisions taken while engines start and stop, and every
  text the client prints, including the exact rendering of memory amounts.
- `tests/` exercises the library.
- `app/` holds the programs around it: sockets, processes, HTTP, NVML, the
  command line, and the serde forms of the library's types.
