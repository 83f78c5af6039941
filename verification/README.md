# zj-sysinfo

A background [zellij](https://zellij.dev) plugin that feeds network speed and
load averages to [zjstatus](https://github.com/dj95/zjstatus) pipe widgets. One
copy of the plugin per session samples every two seconds. On Linux it reads
`/proc` and starts no process; on macOS it runs one host command per sample.

- `pipe_netspeed`: `D: 1.2 MB/s U: 340 KB/s`, for the interface of the default
  route or, without one, the first other interface with traffic
- `pipe_uptime`: `0.52 0.48`, the load over one and five minutes

What is not known is shown as `-`.

## Layout

`src/` is the library, verified with [Verus](https://github.com/verus-lang/verus).
It does no I/O but for the host's clock and its random numbers: it decides, and
is told what came of it.

| module | what it holds |
|---|---|
| `time`, `text`, `fields` | spans and clock readings; lines, words and numbers |
| `ticker` | the sampling cadence: which timers are outstanding |
| `linux`, `macos` | what `/proc` and the macOS tools say |
| `probe`, `context` | a host command that answers later, and its identity |
| `speed` | counters to traffic, and the units of a speed |
| `schedule`, `broadcaster`, `widget`, `clock` | when the widgets are published, and through whom |
| `lease` | which instance may publish |
| `nonce`, `message` | what tells instances apart, and what they send |
| `runtime` | what the plugin does about each event |
| `schedule_laws`, `lease_laws`, `fleet` | what holds over many calls, and between instances |

Public proof functions named `law_...` state what the library promises beyond a
single call. Among them:

- a ticker that was started always has a timer to wake it
- publications are at least one interval apart while the clock does not step
  back
- nothing is scheduled further out than one interval, whatever the clock did and
  whatever the sink replies, and a timer that is due is never swallowed
- after a publication of one instance, the next call of any other is refused,
  whatever fails in between
- the result of a probe that was replaced or cancelled is never taken for that
  of the current one
- a probe that stays silent is restarted with doubling patience, up to a cap

`app/` is the plugin itself: events, files, commands and messages, and the
floating-point arithmetic of a speed. `tests/` runs the library.

## Trusted

The proofs rest on the contracts given to a few functions of the standard
library (`String::push`, `str::from_utf8`, and the host clock in `clock.rs`) and
to `getrandom` in `nonce.rs`. Nothing is claimed of what the clock reads nor of
the random bytes. Implementations of `WidgetSink` promise not to ask for a retry
after no time at all.
