# varde

A minimal uptime monitor. It checks services over HTTP on a schedule of their own, keeps
the latest result of each, pings a dead man's switch while everything is up, sends a
rate-limited message while something is down and one when it is back up, and serves the
current status as JSON at `GET /`.

## Layout

- `src/` is the library. It holds what the monitor decides: schedule expressions and their
  occurrences, which configurations are accepted, what a check's answer means, when the
  heartbeat pings, when and what the notify entries send, what the endpoint answers, the
  command line, and in what order a loop runs and waits. Its functions carry contracts that
  Verus proves.
- `app/` is the program: it reads the configuration file, sleeps, sends, listens and logs.
  It calls the library with plain values, and does what the library says.
- `tests/` runs the library.

A tick that talks to the network is split in two. `heartbeat_tick` and `notify_tick` say what
to send; `heartbeat_outcome` and `notify_sent` take what came of it.

Functions named `law_...` state what holds across functions: that schedules are read alike
however they are written, that occurrences are aligned to the epoch and evenly spaced, that
missed ones are skipped, that the down messages of an outage lie more than the window apart,
that there is one recovery message per outage, that the heartbeat, the notifications and the
endpoint agree on what is down.

Not proved but taken on trust, beside what vstd says of std: that `jiff` turns a second into an instant and writes it after
RFC 3339 as `src/time.rs` says, and that `String::push` appends a character.

## Configuration

`CONFIG_PATH` names the file (`/config/config.json` by default), `PORT` the port (3000), and
`RUST_LOG` the log filter (`info`).

```json
{
  "services": [
    {
      "service": "Home Assistant",
      "schedule": "Every 10 minutes",
      "url": "http://192.168.1.89:4357",
      "okStatusCode": 200
    }
  ],
  "heartbeat": {
    "type": "healthchecks.io",
    "uuid": "12345678-1234-1234-1234-123456789012",
    "schedule": "Every 10 minutes"
  },
  "notify": [
    {
      "type": "ntfy",
      "topic": "my-ntfy-topic",
      "schedule": "Every 10 minutes",
      "minutesBetween": 120
    }
  ]
}
```

A schedule is `every N seconds|minutes|hours|days`, in any case, singular or plural.
Occurrences are aligned to the wall clock: `every 10 minutes` is at :00, :10, :20 and so on.

The `type` of a notify entry is `ntfy` where it is left out.

Entries of the types `telegram` and `pushover` are read and scheduled, but nothing sends to
them: their messages count as failed.

`varde test-notify [--only <type>]` sends a test message through the notify entries.
