# ekiden

Verified core of the Ekiden confidential-contract runtime.

- `src/` is the library, verified with Verus: the message wire format
  (`wire`, `codec`, `api`), nonces and cryptographic boxes (`nonce`,
  `crypto`, `secure_channel`), the contract's end of secure channels
  (`session`, `channel`) and the client's end (`client_channel`, `client`),
  request parsing and dispatch inside an enclave (`request`, `dispatcher`,
  `internal`, `contract_dispatch`), encrypted contract state and state diffs (`state_crypto`,
  `state_diffs`), the key manager client (`key_manager`), the untrusted
  side's enclave calls and routing (`enclave`, `router`), and the storage
  node (`storage`, `tendermint`).
- The messages go in the Protocol Buffers wire encoding, which `wire`,
  `codec` and `api` write and read directly, each message with a spec
  function for its encoding and a proved round trip, rather than through a
  protobuf crate: the protobuf crate that the ABCI server pulls in does not
  compile with the toolchain in use.
- The contract runtime's enclave messages (`ContractEnclaveRequest`,
  `ContractEnclaveResponse`) carry the encrypted contract state next to the
  client requests and responses; `contract_dispatch` reads and writes them.
- `tests/` runs the library on concrete values.
- `app/` is the storage node program and the glue that needs I/O: the
  Tendermint HTTP client, global contexts, raw enclave entry points, the
  network side of the key manager and contract clients, and build helpers.
