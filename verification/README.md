# chat_notes

A small web service for notes and chat rooms, with its logic verified by Verus.

- `src/` is the verified library: the service settings (`app_config`), the
  stored note and the request bodies (`model`, `note_schema`), the answers of
  the note endpoints (`notes`), the registry of chat rooms (`rooms`), the
  protocol of a chat session (`chat`) and the text helpers they share (`text`).
- The registry of chat rooms keeps its rooms, and the users of each room, in
  vectors with no name twice, in place of a `HashMap` of rooms and a
  `HashSet` of users; its view is the map from room name to the set of members.
- `app/` is the program around it: configuration file, database, HTTP routes
  and web sockets, which hand plain values to the library and send back what
  it decides.
- `tests/` runs the library on concrete values.
