//! The decoding functions. Each reads from a `ByteReader`, records effects in
//! an `EffectLog`, and is proved to do exactly what `format` says of the bytes
//! it is given.

use crate::effect::EffectLog;
use crate::error::DecodeError;
use crate::format::{
    archive_run, children_run, dir_run, file_run, has_magic_tag, magic_tag, node_run, Run, TAG,
    TAG_LEN,
};
use crate::laws::law_followed_by_groups;
use crate::name::decode_name;
use crate::reader::ByteReader;
use vstd::prelude::*;

verus! {

/// Whether `bytes` is the magic tag.
pub fn is_tag(bytes: &[u8]) -> (b: bool)
    ensures
        b == (bytes@ == magic_tag()),
{
    if bytes.len() != TAG_LEN {
        return false;
    }
    let mut i: usize = 0;
    while i < TAG_LEN
        invariant
            i <= TAG_LEN,
            bytes@.len() == TAG_LEN,
            forall|j: int| 0 <= j < i ==> bytes@[j] == magic_tag()[j],
        decreases TAG_LEN - i,
    {
        if bytes[i] != TAG[i] {
            return false;
        }
        i += 1;
    }
    assert(bytes@ =~= magic_tag());
    true
}

/// Decodes the file whose fixed fields begin at the cursor and records the
/// request to write it below `path`. The payload is fetched by its absolute
/// offset, which leaves the cursor behind the name. Where the compressed flag
/// is zero the payload is the content; otherwise it is recorded as a stream,
/// with the size that the file is to have, and not inflated here.
///
/// What is recorded, how far the cursor moves and the outcome are those of
/// `file_run`.
pub fn read_file(reader: &mut ByteReader<'_>, path: &Vec<String>, sink: &mut EffectLog) -> (r:
    Result<(), DecodeError>)
    ensures
        final(reader).source() == old(reader).source(),
        ({
            let run = file_run(old(reader).source(), old(reader).position(), path.deep_view());
            &&& final(reader).position() == old(reader).position() + run.consumed
            &&& final(sink)@ == old(sink)@ + run.effects
            &&& r == run.outcome()
        }),
{
    proof {
        use_type_invariant(&*reader);
    }
    let is_compressed = reader.read_integer()?;
    let comp_size = reader.read_integer()?;
    let size = reader.read_integer()?;
    reader.skip_bytes(4)?;
    let offset = reader.read_integer()?;
    let name_length = reader.read_integer()?;
    let name = reader.read_bytes(name_length as usize)?;
    let name = decode_name(name)?;
    let mut target = path.clone();
    target.push(name);
    assert(target.deep_view() =~= path.deep_view().push(name@));
    if is_compressed != 0 {
        let stream = reader.read_uncompressed(offset, comp_size as usize)?;
        sink.create_compressed_file(target, stream, size as usize);
    } else {
        let data = reader.read_uncompressed(offset, size as usize)?;
        sink.create_file(target, data);
    }
    assert(sink@ =~= old(sink)@ + file_run(
        old(reader).source(),
        old(reader).position(),
        path.deep_view(),
    ).effects);
    Ok(())
}

/// Decodes the directory whose fixed fields begin at the cursor: records the
/// request to create it below `path`, then decodes its children below it, in
/// the order in which they lie in the stream.
///
/// What is recorded, how far the cursor moves and the outcome are those of
/// `dir_run`.
pub fn read_directory(reader: &mut ByteReader<'_>, path: &Vec<String>, sink: &mut EffectLog) -> (r:
    Result<(), DecodeError>)
    ensures
        final(reader).source() == old(reader).source(),
        ({
            let run = dir_run(old(reader).source(), old(reader).position(), path.deep_view());
            &&& final(reader).position() == old(reader).position() + run.consumed
            &&& final(sink)@ == old(sink)@ + run.effects
            &&& r == run.outcome()
        }),
    decreases old(reader).left(), 0nat,
{
    proof {
        use_type_invariant(&*reader);
    }
    reader.skip_bytes(4)?;
    let no_of_files = reader.read_integer()?;
    let name_length = reader.read_integer()?;
    let name = reader.read_bytes(name_length as usize)?;
    let name = decode_name(name)?;
    let mut inner = path.clone();
    inner.push(name);
    assert(inner.deep_view() =~= path.deep_view().push(name@));
    sink.create_dir(inner.clone());
    let r = read_entries(reader, &inner, sink, no_of_files);
    assert(sink@ =~= old(sink)@ + dir_run(
        old(reader).source(),
        old(reader).position(),
        path.deep_view(),
    ).effects);
    r
}

/// Decodes the node that begins at the cursor, below `path`: a directory
/// with all that lies below it, or a file.
///
/// What is recorded, how far the cursor moves and the outcome are those of
/// `node_run`.
pub fn read_next(reader: &mut ByteReader<'_>, path: &Vec<String>, sink: &mut EffectLog) -> (r:
    Result<(), DecodeError>)
    ensures
        final(reader).source() == old(reader).source(),
        ({
            let run = node_run(old(reader).source(), old(reader).position(), path.deep_view());
            &&& final(reader).position() == old(reader).position() + run.consumed
            &&& final(sink)@ == old(sink)@ + run.effects
            &&& r == run.outcome()
        }),
    decreases old(reader).left(), 0nat,
{
    proof {
        use_type_invariant(&*reader);
    }
    reader.skip_bytes(4)?;
    let file_type = reader.read_one()?;
    let r = if file_type != 0 {
        read_file(reader, path, sink)
    } else {
        read_directory(reader, path, sink)
    };
    assert(sink@ =~= old(sink)@ + node_run(
        old(reader).source(),
        old(reader).position(),
        path.deep_view(),
    ).effects);
    r
}

/// Decodes `count` nodes one after the other, the first at the cursor, each
/// below `path`. Stops at the first that fails.
///
/// What is recorded, how far the cursor moves and the outcome are those of
/// `children_run`.
pub fn read_entries(
    reader: &mut ByteReader<'_>,
    path: &Vec<String>,
    sink: &mut EffectLog,
    count: u32,
) -> (r: Result<(), DecodeError>)
    ensures
        final(reader).source() == old(reader).source(),
        ({
            let run = children_run(
                old(reader).source(),
                old(reader).position(),
                path.deep_view(),
                count as nat,
            );
            &&& final(reader).position() == old(reader).position() + run.consumed
            &&& final(sink)@ == old(sink)@ + run.effects
            &&& r == run.outcome()
        }),
    decreases old(reader).left(), 1nat,
{
    let ghost data = reader.source();
    let ghost start = reader.position();
    let ghost log = sink@;
    let ghost whole = children_run(data, start, path.deep_view(), count as nat);
    let ghost mut sofar = Run::advance(0);
    let mut done: u32 = 0;
    assert(sink@ =~= log + sofar.effects);
    while done < count
        invariant
            done <= count,
            data == old(reader).source(),
            start == old(reader).position(),
            log == old(sink)@,
            whole == children_run(data, start, path.deep_view(), count as nat),
            reader.source() == data,
            reader.position() == start + sofar.consumed,
            sink@ == log + sofar.effects,
            sofar.error is None,
            whole == sofar.followed_by(
                children_run(data, reader.position(), path.deep_view(), (count - done) as nat),
            ),
        decreases count - done,
    {
        let ghost next = node_run(data, reader.position(), path.deep_view());
        let ghost rest = children_run(
            data,
            reader.position() + next.consumed,
            path.deep_view(),
            (count - done - 1) as nat,
        );
        proof {
            use_type_invariant(&*reader);
            law_followed_by_groups(sofar, next, rest);
        }
        match read_next(reader, path, sink) {
            Ok(()) => {},
            Err(e) => {
                assert(sink@ =~= log + whole.effects);
                return Err(e);
            },
        }
        proof {
            sofar = sofar.followed_by(next);
            assert(sink@ =~= log + sofar.effects);
        }
        done += 1;
    }
    assert(sink@ =~= log + whole.effects);
    Ok(())
}

/// Decodes a whole archive held in `data` and records its effects in `sink`.
///
/// The effects recorded and the outcome are those of `archive_run`, a function
/// of the archive's bytes alone. An archive that does not begin with the magic
/// tag records nothing and fails with `BadMagicTag`. Whatever was recorded
/// before a failure stays recorded.
pub fn read_archive(data: &[u8], sink: &mut EffectLog) -> (r: Result<(), DecodeError>)
    ensures
        final(sink)@ == old(sink)@ + archive_run(data@).effects,
        r == archive_run(data@).outcome(),
        !has_magic_tag(data@) ==> final(sink)@ == old(sink)@ && r == Err::<(), DecodeError>(
            DecodeError::BadMagicTag,
        ),
{
    let mut reader = ByteReader::new(data);
    let tagged = match reader.read_bytes(TAG_LEN) {
        Ok(tag) => is_tag(tag.as_slice()),
        Err(_) => false,
    };
    assert(sink@ =~= old(sink)@ + Seq::empty());
    if !tagged {
        return Err(DecodeError::BadMagicTag);
    }
    reader.skip_bytes(5)?;
    let n = reader.read_integer()?;
    reader.skip_bytes(20)?;
    let root: Vec<String> = Vec::new();
    assert(root.deep_view() =~= Seq::empty());
    let r = read_entries(&mut reader, &root, sink, n);
    assert(sink@ =~= old(sink)@ + archive_run(data@).effects);
    r
}

} // verus!
