# zeroclaw

Verified parts of the ZeroClaw agent runtime that guard data.

- `src/memory`: the memory of one agent on top of a backend that many agents
  share. It stamps what the agent stores, restricts what it recalls to the
  agents and categories that it is granted, and confines deletions to its own
  rows.
- `src/wechat`: the store of WeChat credentials: account ids, the account index
  and the order of the file operations that save and delete an account.
- `src/text.rs`, `src/seqs.rs`: facts about strings and sequences.

The library performs no input or output. A request is planned as a backend call
or a file operation, and resumed with its outcome. The `laws` modules state what
holds across calls.

`app` is ordinary Rust around the library: the asynchronous memory interface,
the files on disk and the WeChat commands. `tests` runs the library against
backends and disks in memory.
