# acos5_64

Verified logic of the ACOS5-64 smart card driver for OpenSC, written in Verus.

`src/` holds the parts of the driver that compute rather than talk to the card,
each with a contract that Verus proves:

- `pkcs1`: stripping PKCS#1 v1.5 block type 01 padding before signing;
- `blockcipher`: trailing padding of the last block for AES and 3DES, and finding it
  again after decryption (with the round-trip law);
- `sym`: how symmetric encryption and decryption are split into card commands;
- `sac`: expansion of compact security attributes into 8 security condition bytes;
- `card`: receive size limits and the card's list of algorithms;
- `select`: SELECT commands for a path and the meaning of the card's answers;
- `driver`: the driver's private data (known files, security environment);
- `walk`: the walk through the card's file system as a state machine that takes the
  card's answers and gives the next command, learning each file's security condition
  bytes, RSA key types and security environment records;
- `pin`, `asym`: PIN policy and RSA key generation/encryption commands;
- `misc`, `errors`, `strings`: small predicates, OpenSC status codes, UI string ids.

`app/` holds the I/O edges: reading files, and running the symmetric and RSA
operations, the SELECT procedure, the PIN query and the file system walk against a
card transport that the caller supplies. `tests/` runs the library on concrete values.
