# Lucky WOL Agent

An agent that a Lucky wake-on-LAN controller drives remotely: it stays logged in at the controller
over WebSocket, relays magic packets on the local network, takes over settings, and shuts the
machine down, hibernates it or puts it to sleep when asked.

`src/` is the agent's logic, written in Verus. Every verified function carries a contract, and what
holds of the agent as a whole stands beside it as public proof functions named `law_...`.

| Module | What it holds |
|--------|---------------|
| `text` | text primitives over sequences of characters |
| `endpoint` | the controller's address, redirects, the transport |
| `envelope` | frames, DES and Base64: the wire format |
| `login` | the login message |
| `wake` | MAC addresses, magic packets, wake-up requests |
| `power` | power actions and the commands behind them |
| `clock` | readings of the clock |
| `config` | the configuration and where it lives |
| `state` | the shared state: configuration, connection, activity log, pending shutdown |
| `machine` | the connector as a state machine: events, directives, what each step comes to |
| `connector` | the connector itself |
| `conduct` | what can be relied on of a connector |
| `commands` | what the user and the desktop can ask for |

What the library takes from outside crates, it takes through small functions marked
`external_body`; their contracts say what is believed of those crates.

`app/` is the desktop program around the library: window and tray, files, network, shell. It does
what the library asks for (directives and effects) and reports what came of it.
