# verify-mldsa-host

Aggregation of ML-DSA-44 (FIPS 204) signatures through zero-knowledge proofs
(SP1 zkVM), for Ethereum externally owned accounts. The library holds the
logic of both sides, verified with Verus:

- the host side: building valid and invalid test cases (`cases`), laying out
  the input frames of a batch or an aggregation (`input`), and the text that
  the benchmark harnesses write (`report`);
- the guest side: the relation of the signature-verification guest
  (`verify_guest`), the aggregating guests (`aggregate_guest`) and the Merkle
  root that the Merkle variant commits (`merkle`).

ML-DSA-44 comes from `fips204`, SHA-256 from `sha2`, the frame encodings from
`bincode` and hexadecimal from `hex`, each behind a small trusted item whose
contract states what the crate documents.

`app/` drives the SP1 SDK: setup, proving, verification, the benchmark
harnesses, and the guests' input and output through `sp1_zkvm`.

`tests/` runs the library against the real crates.
