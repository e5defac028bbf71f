# audion

The protocol and playback logic of the Audion music player, verified with Verus.

`src/` is the library. Every function there carries a `requires`/`ensures`
contract that Verus checks.

- `squeeze/`: a small Squeeze (SlimProto) server.
  - `codec`: SlimProto frame encoding and decoding.
  - `queue`: the play queue, with shuffle and repeat.
  - `player` and `server`: the player state machine, and what each player event leads to.
  - `cometd`: the CometD/JSON-RPC request handling that LMS-style controllers use.
  - `discovery`: UDP discovery replies.
  - `streaming`: the streaming queue and content types.
  - `webui`: the web UI's query handling.
- `lms_client/`: a client for Logitech Media Server.
  - `discovery`: parsing of TLV discovery replies.
  - `api`: reading the fields of JSON-RPC replies.
  - `audio_server`: the local audio server's URLs and HTTP ranges.
  - `cometd_client`: reconnect backoff and the polling messages.
- `commands/backup`: backup file naming, name checks and newest-first listing.
- `scanner/watcher`: sorting file-system events into the rescan work they cause.
- `text`, `numfmt`, `paths`: characters, decimal and hex text, and path extensions.

The `lemma_*` proof functions state the library's laws. Examples:

- A MAC address written as text parses back to the same address, and MAC parsing ignores ASCII case.
- The id in a track URL reads back out of it.
- A TLV discovery reply parses back to the server it describes.
- `peek_next` predicts what `next` returns.
- `previous` undoes `next`.
- Backups are listed newest first, and the listing is a permutation of its input.

`app/` is the unverified shell around the library: sockets, the HTTP servers,
JSON, file access and timers. Its only job is to feed the library plain values
and to carry out what the library returns.

`tests/` runs the library on concrete values.
