//! The archive format, as a model over sequences of bytes.
//!
//! All integers are unsigned, 32 bits wide and big-endian.
//!
//! ```text
//! header
//!   11 bytes   magic tag, "HV PackFile"
//!    5 bytes   unused
//!    4 bytes   number of root entries
//!   20 bytes   unused
//! node, as often as the header or the directory above it says
//!    4 bytes   unused
//!    1 byte    type: zero for a directory, anything else for a file
//!   directory
//!    4 bytes   unused
//!    4 bytes   number of children
//!    4 bytes   length of the name
//!    n bytes   name, UTF-8
//!    then the children, node by node
//!   file
//!    4 bytes   compressed flag: zero for stored, anything else for zlib
//!    4 bytes   compressed size
//!    4 bytes   uncompressed size
//!    4 bytes   unused
//!    4 bytes   offset of the payload from the start of the archive
//!    4 bytes   length of the name
//!    n bytes   name, UTF-8
//! ```
//!
//! A `Run` says what decoding a stretch of the node stream does. The runs of
//! a file, a directory, a node, a sequence of nodes and a whole archive are
//! defined here; the decoding functions are proved to do exactly that.

use crate::effect::EffectModel;
use crate::error::DecodeError;
use crate::reader::{be_u32, bytes_left, span};
use vstd::prelude::*;
use vstd::utf8::{decode_utf8, valid_utf8};

verus! {

/// Length of the magic tag.
pub const TAG_LEN: usize = 11;

/// Length of the archive header: the tag, five unused bytes, the number of
/// root entries, twenty unused bytes.
pub const HEADER_LEN: usize = 40;

/// Offset of the number of root entries in the header.
pub const ROOT_COUNT_AT: usize = 16;

/// Length of what every node begins with: four unused bytes and the type.
pub const NODE_PREFIX_LEN: usize = 5;

/// Length of the fixed fields of a directory after the type: four unused
/// bytes, the number of children, the length of the name.
pub const DIR_FIELDS_LEN: usize = 12;

/// Length of the fixed fields of a file after the type: the compressed flag,
/// the compressed size, the uncompressed size, four unused bytes, the payload
/// offset, the length of the name.
pub const FILE_FIELDS_LEN: usize = 24;

/// The magic tag, `HV PackFile` in ASCII.
pub const TAG: [u8; 11] = [0x48, 0x56, 0x20, 0x50, 0x61, 0x63, 0x6b, 0x46, 0x69, 0x6c, 0x65];

/// The magic tag as a sequence of bytes.
pub open spec fn magic_tag() -> Seq<u8> {
    TAG@
}

/// Whether `data` begins with the magic tag.
pub open spec fn has_magic_tag(data: Seq<u8>) -> bool {
    data.len() >= TAG_LEN && data.subrange(0, TAG_LEN as int) == magic_tag()
}

/// Whether a name field that begins at `at` (its length, then its bytes) lies
/// within `data`.
pub open spec fn name_fits(data: Seq<u8>, at: nat) -> bool {
    at + 4 <= data.len() && at + 4 + be_u32(data, at) <= data.len()
}

/// The bytes of the name whose field begins at `at`.
pub open spec fn name_bytes(data: Seq<u8>, at: nat) -> Seq<u8>
    recommends
        name_fits(data, at),
{
    span(data, at + 4, be_u32(data, at))
}

/// What the file whose fixed fields begin at `fields` asks for under the path
/// `target`, or `None` where its payload does not lie within `data`. The
/// payload is found by its absolute offset. With a flag of zero it is the
/// content, as long as the uncompressed size says. Otherwise it is a zlib
/// stream, as long as the compressed size says, and what is asked for is a
/// file of the uncompressed size made of what the stream inflates to.
pub open spec fn file_request(data: Seq<u8>, fields: nat, target: Seq<Seq<char>>) -> Option<
    EffectModel,
>
    recommends
        fields + FILE_FIELDS_LEN <= data.len(),
{
    let flag = be_u32(data, fields);
    let comp_size = be_u32(data, fields + 4);
    let size = be_u32(data, fields + 8);
    let offset = be_u32(data, fields + 16);
    if flag != 0 {
        if offset + comp_size <= data.len() {
            Some(
                EffectModel::WriteCompressed {
                    path: target,
                    stream: span(data, offset, comp_size),
                    size: size,
                },
            )
        } else {
            None
        }
    } else {
        if offset + size <= data.len() {
            Some(EffectModel::WriteFile { path: target, data: span(data, offset, size) })
        } else {
            None
        }
    }
}

/// What decoding a stretch of the node stream does: the effects it requests,
/// in order; how far it moves the cursor; and the error that stopped it, if
/// one did.
pub struct Run {
    pub effects: Seq<EffectModel>,
    pub consumed: nat,
    pub error: Option<DecodeError>,
}

impl Run {
    /// Moves the cursor by `bytes` and requests nothing.
    pub open spec fn advance(bytes: nat) -> Run {
        Run { effects: Seq::empty(), consumed: bytes, error: None }
    }

    /// Moves the cursor by `bytes`, requests `effect`, and goes on.
    pub open spec fn request(bytes: nat, effect: EffectModel) -> Run {
        Run { effects: seq![effect], consumed: bytes, error: None }
    }

    /// Stops with `error` after moving the cursor by `bytes`; requests nothing.
    pub open spec fn fail(bytes: nat, error: DecodeError) -> Run {
        Run { effects: Seq::empty(), consumed: bytes, error: Some(error) }
    }

    /// This run followed by `next`. Where this run has stopped with an error,
    /// `next` does not happen.
    pub open spec fn followed_by(self, next: Run) -> Run {
        if self.error is Some {
            self
        } else {
            Run {
                effects: self.effects + next.effects,
                consumed: self.consumed + next.consumed,
                error: next.error,
            }
        }
    }

    /// What the decoding function returns for this run.
    pub open spec fn outcome(self) -> Result<(), DecodeError> {
        match self.error {
            Some(e) => Err(e),
            None => Ok(()),
        }
    }
}

/// Decoding the file whose fixed fields begin at `fields`, below `path`.
///
/// Fields that run past the end of the data stop the decode with
/// `TruncatedInput` and the cursor at the end. A name that is not UTF-8 stops
/// it with `InvalidEncoding`, a payload outside the data with
/// `TruncatedInput`, both with the cursor behind the name. Otherwise one
/// effect is requested: the file under its name, with its content or with
/// its stream and size.
pub open spec fn file_run(data: Seq<u8>, fields: nat, path: Seq<Seq<char>>) -> Run {
    if !name_fits(data, fields + 20) {
        Run::fail(bytes_left(data, fields), DecodeError::TruncatedInput)
    } else {
        let name = name_bytes(data, fields + 20);
        let len = FILE_FIELDS_LEN as nat + name.len();
        if !valid_utf8(name) {
            Run::fail(len, DecodeError::InvalidEncoding)
        } else {
            match file_request(data, fields, path.push(decode_utf8(name))) {
                None => Run::fail(len, DecodeError::TruncatedInput),
                Some(effect) => Run::request(len, effect),
            }
        }
    }
}

/// Decoding the directory whose fixed fields begin at `fields`, below `path`.
///
/// Fields that run past the end of the data stop the decode with
/// `TruncatedInput` and the cursor at the end; a name that is not UTF-8 stops
/// it with `InvalidEncoding` and the cursor behind the name. In both cases
/// nothing is requested. Otherwise the directory is created under its name,
/// and then its children are decoded, as many as it declares, from the byte
/// after its name on.
pub open spec fn dir_run(data: Seq<u8>, fields: nat, path: Seq<Seq<char>>) -> Run
    decreases bytes_left(data, fields), 0nat,
{
    if !name_fits(data, fields + 8) {
        Run::fail(bytes_left(data, fields), DecodeError::TruncatedInput)
    } else {
        let name = name_bytes(data, fields + 8);
        let len = DIR_FIELDS_LEN as nat + name.len();
        if !valid_utf8(name) {
            Run::fail(len, DecodeError::InvalidEncoding)
        } else {
            let inner = path.push(decode_utf8(name));
            Run::request(len, EffectModel::CreateContainer { path: inner }).followed_by(
                children_run(data, fields + len, inner, be_u32(data, fields + 4)),
            )
        }
    }
}

/// Decoding the node that begins at `pos`, below `path`: four unused bytes,
/// the type, and then a directory where the type is zero, a file otherwise.
pub open spec fn node_run(data: Seq<u8>, pos: nat, path: Seq<Seq<char>>) -> Run
    decreases bytes_left(data, pos), 0nat,
{
    if bytes_left(data, pos) < NODE_PREFIX_LEN {
        Run::fail(bytes_left(data, pos), DecodeError::TruncatedInput)
    } else {
        Run::advance(NODE_PREFIX_LEN as nat).followed_by(
            if data[pos as int + 4] == 0 {
                dir_run(data, pos + NODE_PREFIX_LEN as nat, path)
            } else {
                file_run(data, pos + NODE_PREFIX_LEN as nat, path)
            },
        )
    }
}

/// Decoding `count` nodes one after the other, the first at `pos`, each below
/// `path`: every node begins where the one before it ended.
pub open spec fn children_run(data: Seq<u8>, pos: nat, path: Seq<Seq<char>>, count: nat) -> Run
    decreases bytes_left(data, pos), count,
{
    if count == 0 {
        Run::advance(0)
    } else {
        let first = node_run(data, pos, path);
        first.followed_by(children_run(data, pos + first.consumed, path, (count - 1) as nat))
    }
}

/// Decoding a whole archive: the header, then the root entries it declares,
/// below the empty path.
pub open spec fn archive_run(data: Seq<u8>) -> Run {
    if !has_magic_tag(data) {
        Run::fail(0, DecodeError::BadMagicTag)
    } else if data.len() < HEADER_LEN {
        Run::fail(data.len(), DecodeError::TruncatedInput)
    } else {
        Run::advance(HEADER_LEN as nat).followed_by(
            children_run(
                data,
                HEADER_LEN as nat,
                Seq::empty(),
                be_u32(data, ROOT_COUNT_AT as nat),
            ),
        )
    }
}

} // verus!
