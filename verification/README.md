# any_mcp

Verified core of bounded Anytype workflows for an MCP server: reading and
editing the blocks of an object's body, creating rich pages from a plan, and
adding and deleting chat messages.

## Layout

- `src/` holds the library; Verus checks all of it.
  - Values and inputs: `text`, `domain`, `wire`, `model`, `input`, `error`.
  - Reading a body: `projection`, `marks`, `tree`, `paging`.
  - Hashes and fingerprints: `encoding`, `hashing`, `fingerprint`, and the
    proofs that they bind what they encode: `binding`, `json_binding`,
    `request_binding`.
  - Planning and composing a write: `plan`, `compose`, `change`.
  - Verifying what a write did: `transition`, `creation`, `relocation`, and the
    laws of these in `laws`.
  - Workflows as steps between service requests: `flows`, `rich`, `rich_plan`,
    `rich_flow`, `chat_add`, `chat_delete`, and the attempts by idempotency key
    that they share: `attempts`.
  - Tools and frame bounds: `catalog`, `frames`, and the JSON values whose tokens
    are counted: `json`.
  - `outside` holds every call into an outside crate, with what is taken on
    trust about it.
- `tests/` runs the library on concrete values.
- `app/` is the asynchronous side: JSON forms, service requests, deadlines and
  tool results. The service itself stands behind the traits of `app/service.rs`.
