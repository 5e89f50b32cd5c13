# grimoire

A peer-to-peer community: members admit each other, talk in text and voice channels, share files and
keep everything encrypted between them, with no server in the middle.

- `src/` is the library: what a community is, how memberships, keys, texts, attachments and names are
  signed, sealed, exchanged and stored, how a node decides what to accept and whom to dial, how
  received voice is put in order, and what the window shows and does. It is written in Verus: the
  functions state what they do, and the statements are proved. What the wrappers around calls into
  other crates state is believed, not proved; each says so in its doc comment. Nothing is
  stated of what is drawn at random or of what time it is, so the `generate` functions state nothing.
- `tests/` runs the library on concrete values, with several nodes in one process.
- `app/` is the program: the database, the network, the sound devices, the command line and the
  window. It performs what the library decides.

## Layout of the library

| what | where |
| --- | --- |
| bytes, texts, ordered maps | `bytes`, `text`, `utf`, `sorted`, `filing`, `names` |
| calls into cryptographic crates | `primitives` |
| members and their roles | `community` |
| channels, texts, files, voice frames | `model` |
| signing and sealing | `crypto`, `identity` |
| messages between nodes | `protobuf`, `wire`, `decoding`, `decoding_laws`, `operations`, `address` |
| what a node keeps | `replica`, `rows`, `snapshot`, `opening` |
| what a node does | `egregore`, `handler`, `exchange`, `outcome`, `connection`, `metrics` |
| voice | `voice`, `playout`, `audio` |
| what a user sees of a community | `state`, `state_laws`, `session`, `timeline`, `debug` |
| the window | `launch`, `shell`, `window`, `panels`, `forms`, `text_input`, `config` |

Laws that relate several functions are public proof functions beside the functions they speak of; the
ones that span a whole exchange between nodes are in `exchange`.
