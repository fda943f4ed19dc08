# dnet_p2p

A peer-to-peer discovery service for a local network. Each service
broadcasts its properties over UDP, listens for the properties of its
peers, drops the peers that stay silent for longer than a timeout, and
keeps a single manager among them.

- `src/` is the library, verified with Verus: the UDP wire format
  (`packet`), the peer tables (`peers`), the service and UDP worker
  decisions (`service`, `worker`, `udp`), settings (`config`), interface
  choice (`utils`), mDNS names and addresses (`mdns`), Thunderbolt profile
  extraction (`thunderbolt`), and the status codes of the C interface
  (`ffi`, `gossip`, `echo`).
- `app/` runs the daemon: sockets, timers, signals, the environment,
  processes, JSON and TXT records with serde, mDNS, and the C interface.
- `tests/` exercises the library.
