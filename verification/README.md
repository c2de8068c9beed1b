# matrix-notify

Post end-to-end encrypted messages to a Matrix room from CI. The message is encrypted on the runner
with Megolm; the homeserver only ever stores ciphertext. The bot's device identity travels through
one encrypted repository secret, so every run is the same device.

What the program decides is a verified library; what it does to the world around it is a thin
program on top.

## `src/`: the library

| module | what it holds |
|---|---|
| `message` | plain text, Markdown and the GitHub run card |
| `target` | room aliases, room ids and permalinks |
| `state` | the encrypted state archive: key, seal, pack, export and the ways back |
| `archive` | the compressed tar archive inside it |
| `store` | the store directory, the session, its fingerprint, and what is deleted before an export |
| `github` | sealing a repository secret and talking about it |
| `matrix` | what goes in and out of the homeserver, and the way to a posted message |
| `joining`, `signing`, `login` | the ways to a joined room, a cross-signed device and a first session |
| `cli` | what the commands decide and print |
| `codec`, `json`, `crypto`, `text` | hexadecimal, Base64, JSON objects, the primitives, and text over Unicode scalar values |

Every function states what it returns over mathematical values, and Verus proves it. The functions
named `law_..` state what holds of several functions together: that an export is imported as it was,
that no name in an archive leaves the store directory, that nothing is posted in plaintext unless
that was allowed, that the room key of a snapshot is never used again.

The conversation with the homeserver is a set of step functions. Each takes what happened and says
what to do next, and the laws hold whatever happens.

Calls into other crates stand behind small functions whose contracts are trusted; the doc comment
of each says what is claimed of the crate.

## `app/`: the program

Arguments, files, SQLite, HTTP and the Matrix SDK. It carries out the steps that the library hands
it.

## `tests/`

What the library does on concrete values, with the real crates behind it.
