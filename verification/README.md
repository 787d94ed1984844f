# lan-mcp

A server of the Model Context Protocol that lets agents on one LAN find each other and
send each other messages. The logic is a library verified with Verus; the program around
it does the input and output.

- `src/` — the library: packets and the peer table (`net`), scans (`scan`), messages
  (`mail`), the protocol (`mcp`), the tools (`tools`), what a node knows (`state`), JSON
  (`json`) and text (`text`). `laws` states what holds of several of them together.
- `app/` — the program: sockets, standard input and output, the environment.
- `tests/` — tests of the library.

The library never waits. Where something has to be done in between, such as sending a
packet or sleeping, a function takes what has happened and says what to do next.

## Tools

| tool | what it does |
|---|---|
| `lan_whoami` | this node's name, id, ip and ports |
| `lan_discover` | active probe burst; returns when the LAN goes quiet (at most `wait_ms`, default 300) |
| `lan_peers` | the peers known from background discovery |
| `lan_send` | acknowledged message to a peer by name, id or prefix, or to `all` |
| `lan_inbox` | read and clear received messages; `wait_ms` waits for one |

## Configuration

`LAN_AGENT` is what an instance is called (default `agent`). It names the server, and, in
upper case, the other two settings: `<AGENT>_LAN_NAME`, how this node introduces itself
(default `<hostname>-<id4>`), and `<AGENT>_LAN_PORT`, the discovery UDP port (default
48618; all nodes must agree).
