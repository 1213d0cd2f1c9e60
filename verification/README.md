# weather_mon

A small daemon that fetches the local weather (position from a geolocation
service, forecast from open-meteo) every half hour and hands the latest
snapshot to clients over a UNIX socket, as a fixed-size binary record.

- `src/` is the verified library (Verus):
  - `weather`, `codec`: the snapshot types and their big-endian wire format,
    with round-trip theorems in both directions. Temperatures are carried as
    the bit patterns of their `f32` values.
  - `forecast`: building a snapshot from the forecast API's arrays (the next
    hours after now, the days from the start of today), the request's query
    parameters, and the check of the answer's status and encoding.
  - `location`: choosing a position among the providers' answers.
  - `refresh`: the snapshot cache and the bounded retry runs.
  - `clients`, `server`: the registry of connected clients and client ids.
  - `args`: the command line.
  - `clock`: the local clock and time zone (`chrono`, `iana-time-zone`).
- `app/` is the daemon itself: HTTP requests, JSON decoding, sockets, the
  event loop.
