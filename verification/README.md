# Virtual Print Sink

A virtual printer. It takes print jobs over LPR (RFC 1179) and IPP and keeps the
data as it was sent, next to a JSON file that describes the job.

## Layout

- `src/` is the library. All of it is verified with Verus.
  - `server/ipp/`: IPP requests (`request`), messages and how they are written
    (`message`, `encoder`), the answers (`responses`, `printer`), the table of
    jobs and the operations on it (`jobs`, `metadata`). What a reader gets back
    of a message is in `round_trip`, `answers` and `printer_answer`; what holds
    of the table is in `job_laws`, and of every request in `request_laws`.
  - `server/lpr/`: control files (`control`), headers (`header`), a connection
    as a state machine (`session`) and the jobs that it brings (`jobs`). What
    holds of a whole connection is in `laws` and `header_law`.
  - `server/config`, `server/controller`, `server/event`: where the servers
    listen, starting and stopping them, and what they report.
  - `storage`, `storage_laws`: file names, file extensions and descriptions.
  - `clock`, `name_map`, `notation`, `split`, `text`, `wire`: what the rest is
    built on.
- `app/` is the program around it: the window, the sockets, the files.
- `tests/` runs the library on concrete values.

## Listening

| | LPR | IPP |
|---|---:|---:|
| Windows | `127.0.0.1:515` | `127.0.0.1:8631` |
| elsewhere | `127.0.0.1:1515` | `127.0.0.1:8631` |

`VPS_LPR_PORT` and `VPS_IPP_PORT` override the two ports.

## Files

```text
print_jobs/
  20260829_135500_123_IPP_000001_Report.pdf
  20260829_135500_123_IPP_000001_Report.json
```

The extension follows the document format where it is known, else the first
bytes of the data; `prn` stands for anything else.

## What is taken on trust

Functions of `std` and of `chrono` that the library calls carry contracts that
are believed, not proved. They stand in `clock`, `notation` and `text`, each with
a comment that says what is claimed of it.

The window needs one of slint's backends, which `Cargo.toml` leaves to whoever
builds the program.
