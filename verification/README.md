# openprov

The core of a content-provenance toolkit, verified with Verus.

- `src/` is the library.
  - `pdf_io` reads manifest stores out of PDFs and locates them. `cai_write` and
    `object_locations` write a store and tell which bytes of a file it takes up; both
    are state machines that ask a document engine for work (`pdf`) and go on with its
    replies.
  - `trust_classification` gives a manifest's certificate chains their trust codes.
    `trust_policy` names the chain checks that a path validator has to make, and
    decides by the ones that succeeded.
  - `certificate` is the boundary to `x509_parser`, `asn1_rs` and `chrono`: the
    contracts of its five calling functions are trusted, everything else is proved.
  - `pdf_laws` and `trust_laws` state what holds across functions.
- `app/` connects the library to streams and files, to a document engine and a path
  validator that the embedding SDK supplies, and to serialisation.
- `tests/` runs the library on concrete assets and certificates.
