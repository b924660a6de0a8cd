# httpcache

An HTTP/1.1 forward proxy with `CONNECT` tunnels, domain and port rules, and a
response cache on disk. What the proxy decides is a library whose functions are
specified and proved with Verus; the program around it does the input and output.

## Layout

- `src/` is the library.
  - `config`, `policy`, `errors`: settings, rules, and what a client is told of a
    failure.
  - `header_map`, `headers`: header collections, and the headers that stay behind
    when a message is passed on.
  - `http_proxy`: one request from its arrival to the plan for its response.
    `upstream` finds the server, `headers` the expiry, `cache_pipeline` the reply
    from the cache and the place of a body, `cache_writer` and `tee_body` write a
    body while it is passed on, `discard` states what becomes of one that does not
    come whole, and `replay` what a reply from the cache has in common with the
    response it stands for.
  - `cache`, `cache_index`, `backend`: entries, keys, and the steps of a lookup, a
    store and a deletion. `cache_laws` states what these do to the table and the
    files as a whole.
  - `connect_tunnel`, `server`, `obs`, `log_filter`: tunnels, routing, timing and
    logging.
  - `text`, `numbers`: characters, decimal numbers and 64-bit integers.
- `app/` is the program: sockets, files, SQLite and the log.
- `tests/` runs the library.

Long operations are written as state machines. The library says which step comes
next and is told how it went; the program carries the step out. So what is proved
of the machine holds for every way in which the steps can go.
