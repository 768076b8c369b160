# bmap

Control Bluetooth audio devices over the BMAP protocol, with the protocol
logic verified by Verus.

- `src/` — the verified library: packet framing and response parsing
  (`protocol`), payload parsers and builders (`device`), per-device feature
  tables (`devices`), the product catalog (`catalog`), the request/response
  dialogues of a connection (`connection`), discovery of paired devices from
  `bluetoothctl` text (`discovery`), channel selection when connecting
  (`setup`), MAC parsing (`transport`), and helpers of the command-line tool
  (`cli`). Each dialogue's contract states the packets sent, in order, and the
  result for every reply the device may give.
- `tests/` — tests run against the compiled library.
- `app/` — the `bmapctl` command-line tool: RFCOMM sockets, `bluetoothctl`
  calls and printing.
