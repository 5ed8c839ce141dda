# connect4

Connect Four for two browsers. The first two visitors take the two seats of one table; everyone
else is told that it is busy. A player who loses the connection during a game has a grace period
to come back before the game is lost.

`src/` is a library proved with Verus. What it takes on trust of the standard library and of
axum stands in `request`, `stream` and `clock`, each item with a note of what is claimed:

| module    | what it holds                                                     |
|-----------|-------------------------------------------------------------------|
| `model`   | the state of the table and what each event makes of it            |
| `laws`    | what holds of the table whatever happens, as proof functions      |
| `board`   | the grid: where a piece lands, four in a row                      |
| `game`    | the table in memory, and the messages to the players              |
| `server`  | the handlers of requests, lost connections and timers             |
| `request` | session and display name of a request                             |
| `stream`  | the pace and the content of a stream of server-sent events        |
| `clock`   | time stamps and the length of the grace period                    |
| `text`    | numbers in decimal                                                |

`app/` is the server around it: routes, channels, timers and the wire format. It reads
`index.html` and `favicon.ico` from the working directory, the port from `PORT` (8085 if unset)
and the grace period from `GRACE` (such as `90` or `90s`; 60 seconds if unset).
