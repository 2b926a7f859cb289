# clock_server

Compares the local clock with an NTP server's, and answers NTP requests.

- `src/` is the verified library: the NTP header and its 48-byte wire format
  (`ntp`), the decoding error (`error`), the clock-difference computations
  (`client` on UTC date-times with chrono's arithmetic, leap seconds included, and the
  mean of repeated differences; `common` on system-clock
  readings in milliseconds), and the server's answer to a request (`server`).
  The laws proved there include that decoding an encoded header gives it back,
  that encoding a decoded datagram gives its first 48 bytes back, and that the
  server's answer changes nothing of the request but the stamped fields.
- `app/` is the command-line program: sockets, clocks, printing, and the
  floating-point scaling between nanoseconds and NTP fractions.
- `tests/` runs the library on concrete values.
