# globalping_probe

A Globalping network probe: it connects to the Globalping API over socket.io,
receives measurement jobs (ping, traceroute, DNS, MTR, HTTP), runs them with
the system tools and sends the results back.

## Layout

- `src/` — the library, verified with Verus: option validation and command
  lines for every measurement, the parsers of `ping`, `traceroute`, `dig`,
  `mtr`, `curl` and `openssl` output, HTTP header truncation, private address
  rules, the progress buffer, output size limits, the concurrency limiter, the
  probe status, disconnect tracking, reconnect back-off and the log buffer.
  Each public function states its result in its contract; the `law_*` proof
  functions state what holds across calls.
- `app/` — the process around it: environment, files, child processes, the
  socket.io session, JSON, timers, and the floating-point statistics.
- `tests/` — tests of the library on concrete inputs.
