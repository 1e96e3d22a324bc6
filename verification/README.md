# thunder

A command-line download client for the 迅雷 drive API, and the daemon around it.

- `src/` is the library, in Verus. It decides everything: which HTTP request an
  operation owes and what the reply means (`client`, `api`, `drive`, `walk`), how an
  answer is read (`json`, `model`), what is printed (`show`, `size`, `output`), how a
  `dl` command goes on from one turn to the next (`dl`, `source`, `pick`), and how the
  daemon is started, stopped and shown (`daemon`). `text`, `number` and `encode` hold
  what these are written with; `serve` says which requests have a body to be read.
- `app/` is the program. It sends the requests, reads files and the terminal, lists and
  signals processes, and hands the library plain values.
- `tests/` runs the library.

`serde_json` reads and prints JSON, and `urlencoding` encodes the values of query
strings; what the library takes from them stands beside each call in `src/json.rs` and
`src/encode.rs`.
