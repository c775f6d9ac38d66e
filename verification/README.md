# portal

A DNS protocol library whose behaviour is stated in Verus contracts and
proved: domain names, message headers, questions, resource records with
their data, EDNS options, and the wire format of all of them.

## Layout

- `src/` — the verified library.
  - `packing.rs`: read and write cursors over message octets, with the
    wire form of integers and character strings as spec functions.
  - `types/dns/`: names (labels, compression pointers, dotted text),
    headers, questions and messages.
  - `types/rr/`: record types and classes, record headers, record data by
    type, and records.
  - `types/edns/`: OPT option codes, options and cookies.
  - `types/sockets.rs`, `utils/`, `zone/`: socket address selection by IP
    version, network names, timeout outcomes, and reading zone text into
    records (`$ORIGIN`, relative and indented owners; A, AAAA, NS and
    CNAME data).
  - `text.rs`, `addr.rs`: text building, and the calls into `str` and
    `core::net` that the library trusts, each with its contract.
- `app/` — what stays outside verification: the tokio timer, zone files
  on disk, conversions to and from `std::net` socket addresses, and the
  serde and thiserror forms of some library types.
- `tests/` — tests that run the library.

## What is proved

Besides each function's contract, the library states and proves that what
is written reads back: names (`lemma_pack_unpack`), headers
(`lemma_header_write_read`), questions, record headers, record data of every
type, records (`lemma_record_write_read`) and whole messages
(`lemma_message_write_read`); that the dotted text of a name parses back to
the name through `Name::try_from` (`lemma_dotted_text_parses_back`); that
parsing names, types and classes ignores the case of ASCII text; and that
codes and mnemonics of types, classes, opcodes and response codes convert
back and forth.
