# netbench

A raw-IP network benchmark: a sender sends numbered packets (IP protocol 254)
to a receiver, asks it periodically for the number it got, and reports
throughput, delivery ratio, round-trip time and route.

- `src/` is the verified library: the payload wire format (`wire`,
  `encapsuler`, `utils`), the IPv4 header of benchmark packets (`ipv4`), and
  the decisions of each side (`receiver`, `sender`, `compute`, `ping`,
  `route`, `sync`), each stated as a contract and proved with Verus.
- `app/` holds the programs around it: configuration reading, sockets,
  threads, timers and printing. Run `netbench receiver` on one machine and
  `netbench sender [packet_size [throughput_kib]]` on the other, with a
  `config.toml` in the working directory.
