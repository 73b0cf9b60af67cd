# matrix-mqtt-bridge

Bridge between Matrix and MQTT.

Events from a Matrix room are published to `<prefix>/<room id>`. Text published to
`<prefix>/<room id>/send/text` is sent to the room as an `m.text` message. The bot user should
already be joined to the rooms.

## Layout

`src/` is the library. It is verified with Verus, apart from the calls that it makes into other
code, whose contracts are trusted: `RoomId::parse` and `UserId::parse` of `ruma` (in `ident`),
`Path::join` of the standard library (in `cli`), and `to_string` and `from_str` of `serde_json` for
the session of `matrix_sdk` (in `session`). The modules are:

- `ident`: room IDs and user IDs, read with `ruma`
- `topic`: the topics, and the room that a topic is for
- `event`, `metrics`, `mqtt::metrics`: what passes between the two sides, and metric labels
- `cli`: the settings
- `matrix`: messages in rooms, the login, and the task that sends to Matrix
- `session`: the session of a login, and the text in which it is kept
- `mqtt`: the connection to the broker, and the task that publishes and receives
- `bridge`: the main loop, and what holds of the bridge as a whole

The theorems about the library are the proof functions whose names begin with `law_`.

`app/` is the program around it: the command line, the Matrix and MQTT clients, the metrics
registry and the session file.
