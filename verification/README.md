# catte

A verified library for the Telegram Type Language (TL) and the MTProto
protocol, checked with Verus.

- `tl_buffer`, `bytes_buffer`: byte buffers with a cursor that read and write
  TL primitives (integers, byte strings, strings, booleans), with read-after-write
  laws in `buffer_laws`.
- `tl_reader`, `tl_object`, `mtproto`: objects that write themselves and a
  table of readers keyed by constructor number.
- `tl_compiler`: the schema compiler — tokenizer, parser and the generator of
  Rust structs, readers, variant enums and the object enum; `pipeline` proves
  that parsed schemas can be generated, that the parser marks exactly the
  variant types, and what the generated module and object enum hold.
- `object_compiler`: the compiler of the object schema used by `tl_object`.
- `server`: the protocol logic of the server — abridged framing and
  obfuscation keys, message identifiers and envelopes, session checks, the
  sign-in rules, mailbox keys, the AES-256-CTR state of the obfuscated
  transport (with aes and ctr), the key exchange as steps of its state (with
  AES-IGE from grammers-crypto and modular powers from num-bigint), and the
  decisions of the connection loop.

`app/` holds the command-line front end and the socket transports.
