# linkspace_pkt

The packet format of linkspace, verified with Verus: spaces and paths
(length delimited byte components, with and without an index), the point
header, data, link, key and error points, their byte layout and how they are
read back, the 32 byte net header, packet fields by id, tree index keys and
values, and stamps.

Layout:

- `src/` the library. Every function carries a contract; `law_*` proof
  functions state what holds across functions (a built point reads back as
  built, a decoded space encodes to its bytes, and so on).
- `tests/` tests run against the compiled library.
- `app/` what surrounds the library: error types with messages, writing to
  `std::io`, the clock, and the per thread default net header.

Hashes are BLAKE3 (the `blake3` crate); path component lists are collected in
an `arrayvec::ArrayVec`. Signing and verifying signatures is left to the
caller: the library gives the hash a key point's signature signs, and takes
whether a signature verifies as an argument.
