# blazar

The decision logic of an agent runtime, verified with Verus.

- `src/` — the verified library: capability and tool contracts, claim-based
  batch scheduling, JSON argument repair and tool-call planning, the XML
  response contract and its streaming side channel, the turn driver that
  decides between provider passes and tool batches, ACP payload parsing,
  shell output capping, and the runtime's command loop.
- `app/` — what runs around it: providers, filesystem and process tools,
  threads, HTTP for ACP, and logging.
- `tests/` — executable tests of the library.
