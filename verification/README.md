# hydrogen

The packet and protocol layer of a game server for the Hazel network
protocol, written in Verus.

- `src/` is the verified library: the byte buffers and their encodings
  (`util::buffer`, `util::bytes`, `networking::buffer`), Hazel messages
  (`util::hazel`, `networking::hazel_message`), the packets the server reads
  and writes (`protocol`, `inner::protocol`), game codes (`inner::inner`),
  rooms and the decisions on joining and leaving (`inner::rooms`), the game
  objects and how spawn and data messages change a room
  (`inner::objects`, `protocol::game_data`), and settings (`inner::data`,
  `util::structs`).
- `app/` is the server program around it: the UDP loop, the shared tables of
  users and rooms, the matchmaker's HTTP types, and the float form of
  positions.
- `tests/` runs the library on concrete packets.
