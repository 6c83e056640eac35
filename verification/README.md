# NearDesk

Find the computers on the local network, open a remote desktop on one of them,
and share this one. The decisions are a library whose behaviour is stated in
contracts and proved with Verus; the program around it does the I/O.

- `src/` is the library.
  - `text`, `search`, `number`: strings as sequences of characters.
  - `assoc`, `text_map`: maps from text to text that keep their order.
  - `config`: the `key=value` settings file, and that saving and loading agree.
  - `address`, `network`: IPv4 addresses, this machine's networks, what to scan.
  - `protocol`: RDP and VNC, and how a server of each is recognised.
  - `discovery`: from replies to a list of machines with names.
  - `platform`: commands to run on Windows, macOS and Linux, and what their
    outcomes mean (system info, sharing, launching a client).
  - `connect`, `this_pc`: the state behind the two views, and what they show.
  - `logo`: decoding the logo.
- `app/` is the program: windows, processes, sockets, threads and files. It reads
  `logo.png` and keeps `neardesk.conf` next to the executable.
- `tests/` run the library.

What is taken on trust: that `String::from_utf8_lossy`, `str::to_lowercase` and
`image::load_from_memory` do what the contracts beside them say.
