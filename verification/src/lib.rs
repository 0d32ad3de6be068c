//! Server-side foundation for a legacy MMO: a read-only indexer for PK2
//! archives and the decisions of a TCP session engine.
//!
//! - [`blowfish`]: the block cipher that PK2 data is encrypted with.
//! - [`pk2`]: header, entries, blocks, directories and whole archives. An
//!   archive is handed to the library as the sequence of its bytes.
//! - [`net`]: what the engine and its sessions decide on every event. The
//!   waiting on sockets and queues is left to the program that uses the
//!   library.
//!
//! The functions of this crate are verified against contracts that are
//! stated over mathematical models (`Seq`, `Map`, `int`) of the data they
//! handle. Two calls into other crates are taken on trust, each behind a
//! private function that says so: the decoding of EUC-KR text by the
//! `encoding` crate, and the making of random identifiers by the `uuid`
//! crate.

pub mod blowfish;
pub mod net;
pub mod pk2;
