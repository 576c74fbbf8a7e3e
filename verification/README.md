# rcollection

A handful of small networked programs built around a verified core.

- `src/` is the verified library (Verus):
  - `rc_stack`: a persistent stack whose lists share their tails;
  - `http`: request routing and the exact response bytes of the web servers;
  - `store`: the key-value store of the Redis-style server, its commands and replies;
  - `delay`: the decisions of a timer future run by a tiny executor.
- `app/` holds the programs themselves (sockets, threads, runtimes):
  `rcollection web | async-web | redis | mini-tokio`.
- `tests/` exercises the library.
