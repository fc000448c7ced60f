# proof-service

A service that has zero-knowledge proofs made: it takes requests in, hands their tasks to
provers and tells how they stand. Its decisions are in a library that Verus verifies.

- `src/` is the library. The start of the service (`startup`), a request (`generate`,
  `service`), a run of a task (`worker`, `manager`), the proof of a segment
  (`root_prover`) and a whole proof on one machine (`single_node_prover`) are machines of states: a state names what is to be done outside,
  and its `answer` takes what came of it and gives the next state. `protocol` and `layout`
  hold the vocabulary, `text`, `codec`, `digest` and `signature` the formats, `cache`,
  `memory`, `gpu` and `network` what the provers share.
- `intake_laws`, `worker_laws` and `service_laws` state what holds of a whole request, of a
  whole run, and between the two and what is said later, whatever the outside
  answers. The other laws stand in the modules they speak of, under names that begin with
  `law_`.
- `app/` does what the states ask for: it reads and writes files, talks to the database
  and the provers, and waits. The database, the stage machine, the protocol's numbers and
  the proving system are traits there.
- `tests/` runs the library with the crates that it calls.

What the library believes of other crates stands at the functions marked
`external_body`, each with a comment that says what is claimed: `bincode`, `zstd`,
`ethers`, `sha2`, `hex`, `uuid`, `lru`, and two functions of the standard library.
