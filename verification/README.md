# lsp-muxd

A daemon that lets several workspaces share one language server. Each client
connects to a Unix socket instead of launching a server of its own; the first
one that names its workspace root starts the server, every later one adds its
folder to it with `workspace/didChangeWorkspaceFolders`, and the last one to
leave stops it. A client has left when its connection has ended, in whatever
way.

    lsp-muxd [--instance-id <ID>] <server-command> [server-args]...

The daemon listens on `/tmp/lsp-multiplexer.sock`, or with an id on
`/tmp/lsp-multiplexer-<ID>.sock`. Without a command it runs rust-analyzer.

## Layout

- `src/` is the library, verified with Verus. Each state machine has a
  mathematical model (`Mux`, `Workspaces`, `PendingRequests`, `Progress`); the
  methods are proved to follow it.
  - `multiplexer`: the clients, the server and the requests under way.
  - `connection`: what comes of each event on the connection of a client.
  - `routing`: what holds of the multiplexer whatever happens in between.
  - `request_map`: the ids under which the server knows the clients' requests.
  - `rpc`, `lsp`, `json`: the messages, and how they are written as JSON.
  - `codec`, `text`: the framing with `Content-Length` headers.
  - `protocol`, `workspace_manager`, `client_handler`, `server_handler`,
    `line_routing`: the protocol with one message on each line.
  - `options`: the command line.
- `app/` is the daemon itself: sockets, processes and channels.
- `tests/` runs the library.
