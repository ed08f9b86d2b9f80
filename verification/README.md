# brew_server

The core of a Brew server, which links TETRA base stations, written and verified
in Verus.

`src/` is the verified library:

- `protocol` reads Brew packets and builds them; `wire` gives their layout and
  proves that reading and laying out undo each other; `bytes` and `ids` hold
  integers as bytes and UUIDs as numbers.
- `state` keeps clients, subscribers, groups, calls and short message routes,
  and forgets a client that has gone or what has become too old.
- `monitor` and `dashboard` keep what the web dashboard shows.
- `telemetry` keeps the live picture of each base station.
- `fsnet` decides who may open a channel.
- `lip`, `aprs` and `aprs_link` read location reports, write them as APRS
  packets, and order the work on the connection to the APRS server.
- `config` holds the settings and their defaults; `text`, `text_map`, `collect`
  and `history` are the tools of the others.

Proof functions whose names begin with `law_` state what holds of the library as
a whole.

`app/` is the program round the library: sockets, files, JSON and TOML.
`tests/` runs the library.

Positions are held in units of 2^-23 degrees, so that every coordinate of a
location report is a whole number. Measurements that base stations send as
floating-point numbers are held as their bits and passed on unchanged.
