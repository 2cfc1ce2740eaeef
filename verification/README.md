# oxmgr

The verified core of a process manager's daemon: what is judged about processes, what may be done
about it, and what is answered over HTTP and over the local socket.

`src/` is the library. Everything in it is checked by Verus against the contracts it carries.

| Module | What it decides |
| --- | --- |
| `findings`, `identity` | The lifecycle of a finding: raised, held, cleared, raised again, forgotten |
| `rules` | Which action a set of findings calls for, and why one was withheld |
| `protection` | Whether an action is let through: switches, permissions, cooldowns, rate caps |
| `tuning` | Which detections are suppressed, and where |
| `severity` | The typical value of a window of samples |
| `process` | How a process is found by name or by number |
| `config`, `errors`, `numeric` | Addresses, paths and ports of an installation; errors; conversions |
| `daemon` | The steps of the daemon loop, of the wait for readiness, and of a local request |
| `collection` | Whether host figures are collected and consumers sampled, and what is said of it |
| `http` | Routes, credentials, assets, log pages, commands, reports and the metrics text |
| `reading`, `ordered_map`, `sequences`, `text` | What the others are stated over |

A floating-point number is a `Reading` in the library: its bit pattern, which says whether it is
finite and where it stands among the others. Arithmetic on such numbers, and their decimal text, are
in `app/`.

`app/` is the program around the library: sockets, files, the environment, the HTTP server, and the
JSON forms of the library's types. It drives a process manager and a host collector through the
traits `Manager` and `Host`.

`tests/` runs the library.

What the library takes on trust is marked where it stands: hashing, base64, gzip, UTF-8 conversion
and header validation in `http/codec`, the user id in `config`, and `String::push` in `text`.
