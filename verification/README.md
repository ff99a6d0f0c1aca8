pxls_rs
=======

The logic of a pxls canvas server (a PxlsNetworking implementation), written
in Verus: each function carries a `requires` / `ensures` contract that Verus
proves, and the properties that span several functions stand as proof
functions (`lemma_*`).

Layout
------

- `src/` — the verified library.
  - `database/` — resource specifiers and their URI forms, page tokens and
    page links, list filters, bans and the ban cache, boards (activity
    windows, placement statistics, palettes), factions and members, reports
    and report artifacts, sectors and their buffers, and the directory
    (LDAP) side of users, roles and factions: search filters, entry parsing,
    timestamps and change outcomes.
  - `filter/` — HTTP header logic: byte ranges and content ranges, multipart
    boundaries, bearer tokens, `Accept-Encoding`, patches and paginated lists.
  - `decimal.rs`, `text.rs` — decimal parsing and formatting, and the
    character-level helpers the rest is built on.
- `tests/` — tests that run the library with its outside crates linked.
- `app/` — the server around the library: routes, I/O, the directory
  connection and the serde forms of the library's types. Verus does not see it.

Outside crates are called from `src/` only through small trusted wrappers
(`#[verifier::external_body]`), each with a doc comment that says what its
contract assumes of the crate.
