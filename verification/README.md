# gens_relay

The verified rules of a small peer-to-peer relay. A daemon meets its peers through a signaling
server and on the local network, opens channels to them, and carries messages, directory listings
and files. Desktop clients steer it over a local socket.

- `src/` is the library. Every function in it has a contract that Verus proves. What it takes on
  trust from `serde_json`, `url` and the standard library is: the functions marked
  `external_body`, in `json`, `paths` and `relay`; the `assume_specification` of `String::push`,
  in `text`; the four declarations of outside types, `ExNumber` and `ExValue` in `json`, `ExUrl`
  and `ExParseError` in `relay`; and the seven uninterpreted names that these contracts speak of,
  `value_model`, `number_model`, `parsed_json` and `json_text` in `json`, `url_model`,
  `parsed_url` and `url_error_text` in `relay`.
- `tests/` runs the library.
- `app/` holds the programs: `main.rs` is the daemon, `gui.rs` the desktop client (with `eframe`),
  `shell.rs` the desktop shell around a web page (with `tauri`). They do the input and output.

The modules of the library:

| module | what it is about |
| --- | --- |
| `daemon` | what a paired daemon knows, and what it does about commands, packets and messages |
| `signaling` | how two peers come to a connection, step by step |
| `channel`, `wire` | what peers say to each other over a channel, and what is done about it |
| `transfer` | a file on its way to a peer |
| `ipc`, `notices` | commands and events between the daemon and its clients |
| `session`, `prefs` | what a desktop client shows, and what it asks of the daemon |
| `link` | a client's way to the daemon |
| `exchange` | what holds from one user to the other |
| `config`, `relay` | names, files and addresses |
| `listing`, `names`, `paths` | directories, and names and paths of files |
| `peers`, `json`, `text` | directories of peers, JSON values, small tools on text |
