# udp_knock

Remote firewall management over authenticated, encrypted UDP datagrams.

- `src/` is the library, verified with Verus: text handling (`text`), packet sealing and
  opening and the replay window (`crypto`), configuration defaults (`config`), firewall
  rules and their back ends (`firewall`: Linux in memory, Windows through `netsh`,
  OpenWrt through `uci`), the server's decisions (`server`: admission, rate limiting,
  command execution, the session handler), errors, the protocol types and the client's
  command packet and its reading of a reply.
- Back ends that run programs are written as step functions: each call is given the
  outcomes of the runs so far and answers with the next program to run or with the
  result, so the decisions are verified and the runs happen outside the library.
- `app/` is the program around the library: command line, configuration files, sockets,
  running `netsh` and `uci`, and the JSON forms of the library's types.
- `tests/` holds the tests, run against the library with the real outside crates.
