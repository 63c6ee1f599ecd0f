//! Decoder for the HV PackFile archive format.
//!
//! An archive is one flat byte string that holds a tree of directories and
//! files. The tree is described by a stream of nodes that follows a fixed
//! header; the bytes of each file lie elsewhere in the archive, at an absolute
//! offset, stored plainly or as a zlib stream. Decoding walks the node stream
//! depth first and records, in stream order, one effect per node: create a
//! container, write a file with its bytes, or write a file with what its zlib
//! stream inflates to.
//!
//! Nothing here touches a filesystem or runs a zlib decoder. The caller hands
//! over the archive's bytes and receives the effects to carry out; for a
//! compressed file the caller inflates the stream and `fit_to_size` makes the
//! content of the result.

//!
//! - `format`: the layout of an archive and what decoding it means, as a
//!   model over sequences of bytes.
//! - `reader`: a cursor over bytes in memory, with sequential reads and reads
//!   at an absolute offset.
//! - `name`: names as UTF-8 text.
//! - `inflate`: the content of a compressed file, from what its stream
//!   inflated to.
//! - `effect`: the effects and the log that collects them.
//! - `decoder`: the decoding functions, each proved to do what the model says.
//! - `laws`: what holds of every archive, proved from the model.

pub mod decoder;
pub mod effect;
pub mod error;
pub mod format;
pub mod inflate;
pub mod laws;
pub mod name;
pub mod reader;
