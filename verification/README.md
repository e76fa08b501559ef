# proxy_backend

The rules of a local proxy's control process, verified with Verus, and the process around them.

- `src/` is the library: configuration, service life cycle, account service, client packages, media
  previews, replays and load tests, protocol tools, localization. Every function states what it
  returns or changes, and every statement is proved. What an outside crate computes stands behind a
  small item whose doc comment says what is taken on trust.
- `tests/` runs the library on concrete values, with the outside crates linked.
- `app/` is the process: files, sockets, child processes and the JSON that travels. The proxy itself
  is reached through the trait `Host`.

Work that has to happen outside is driven by small state machines: the library says what to do next,
the process does it and hands back how it went.
