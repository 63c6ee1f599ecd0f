//! What holds of every archive, stated over the model in `format` and proved.

use crate::effect::EffectModel;
use crate::error::DecodeError;
use crate::format::{
    archive_run, children_run, dir_run, file_request, file_run, has_magic_tag, name_bytes,
    name_fits, node_run, Run,
};
use crate::inflate::fit;
use crate::reader::{be_u32, bytes_left, span};
use vstd::prelude::*;
use vstd::utf8::{decode_utf8, valid_utf8};

verus! {

/// Decoding depends on the archive's bytes and on nothing else: two archives
/// that agree byte for byte decode to the same effects, in the same order,
/// with the same outcome.
pub proof fn law_same_bytes_same_run(a: Seq<u8>, b: Seq<u8>)
    requires
        a.len() == b.len(),
        forall|i: int| 0 <= i < a.len() ==> a[i] == b[i],
    ensures
        archive_run(a) == archive_run(b),
{
    assert(a =~= b);
}

/// A file with a compressed flag of zero is written with exactly the bytes
/// that lie at its payload offset, as many as its uncompressed size says.
pub proof fn law_plain_file_is_copied(data: Seq<u8>, fields: nat, path: Seq<Seq<char>>)
    requires
        name_fits(data, fields + 20),
        valid_utf8(name_bytes(data, fields + 20)),
        be_u32(data, fields) == 0,
        be_u32(data, fields + 16) + be_u32(data, fields + 8) <= data.len(),
    ensures
        file_run(data, fields, path).error is None,
        file_run(data, fields, path).effects == seq![
            EffectModel::WriteFile {
                path: path.push(decode_utf8(name_bytes(data, fields + 20))),
                data: span(data, be_u32(data, fields + 16), be_u32(data, fields + 8)),
            },
        ],
{
}

/// A file with a compressed flag other than zero is recorded with exactly
/// the bytes that lie at its payload offset, as many as its compressed size
/// says, as its stream, and with its uncompressed size as the size to fit
/// the inflated stream to.
pub proof fn law_compressed_file_keeps_its_stream(
    data: Seq<u8>,
    fields: nat,
    path: Seq<Seq<char>>,
)
    requires
        name_fits(data, fields + 20),
        valid_utf8(name_bytes(data, fields + 20)),
        be_u32(data, fields) != 0,
        be_u32(data, fields + 16) + be_u32(data, fields + 4) <= data.len(),
    ensures
        file_run(data, fields, path).error is None,
        file_run(data, fields, path).effects == seq![
            EffectModel::WriteCompressed {
                path: path.push(decode_utf8(name_bytes(data, fields + 20))),
                stream: span(data, be_u32(data, fields + 16), be_u32(data, fields + 4)),
                size: be_u32(data, fields + 8),
            },
        ],
{
}

/// Fitting to a size gives exactly that many bytes, whatever the stream
/// inflated to: the given ones as far as they reach, zero bytes behind them.
pub proof fn law_fit_cuts_or_pads(bytes: Seq<u8>, size: nat)
    ensures
        fit(bytes, size).len() == size,
        forall|i: int| 0 <= i < size && i < bytes.len() ==> fit(bytes, size)[i] == bytes[i],
        forall|i: int| bytes.len() <= i < size ==> fit(bytes, size)[i] == 0,
        size == bytes.len() ==> fit(bytes, size) == bytes,
{
    if size == bytes.len() {
        assert(fit(bytes, size) =~= bytes);
    }
}

/// Doing one run after another groups either way.
pub proof fn law_followed_by_groups(a: Run, b: Run, c: Run)
    ensures
        a.followed_by(b).followed_by(c) == a.followed_by(b.followed_by(c)),
{
    assert(a.followed_by(b).followed_by(c).effects =~= a.followed_by(b.followed_by(c)).effects);
}

/// Children are decoded in the order in which they lie in the stream:
/// decoding `count` of them is decoding the first `done`, and then the
/// others from where the first `done` ended.
pub proof fn law_children_in_stream_order(
    data: Seq<u8>,
    pos: nat,
    path: Seq<Seq<char>>,
    done: nat,
    count: nat,
)
    requires
        done <= count,
    ensures
        children_run(data, pos, path, count) == children_run(data, pos, path, done).followed_by(
            children_run(
                data,
                pos + children_run(data, pos, path, done).consumed,
                path,
                (count - done) as nat,
            ),
        ),
    decreases done,
{
    let head = children_run(data, pos, path, done);
    let tail = children_run(data, pos + head.consumed, path, (count - done) as nat);
    if done == 0 {
        assert(head.followed_by(tail).effects =~= tail.effects);
    } else {
        let first = node_run(data, pos, path);
        let at = pos + first.consumed;
        let head_rest = children_run(data, at, path, (done - 1) as nat);
        let tail_rest = children_run(data, at + head_rest.consumed, path, (count - done) as nat);
        law_children_in_stream_order(data, at, path, (done - 1) as nat, (count - 1) as nat);
        law_followed_by_groups(first, head_rest, tail_rest);
    }
}

/// The child that comes after `done` others begins where they ended, and
/// its effects come right behind theirs.
pub proof fn law_next_child_follows(data: Seq<u8>, pos: nat, path: Seq<Seq<char>>, done: nat)
    ensures
        children_run(data, pos, path, done + 1) == children_run(data, pos, path, done).followed_by(
            node_run(data, pos + children_run(data, pos, path, done).consumed, path),
        ),
{
    let head = children_run(data, pos, path, done);
    let next = node_run(data, pos + head.consumed, path);
    law_children_in_stream_order(data, pos, path, done, done + 1);
    assert(children_run(data, pos + head.consumed, path, 1) == next) by {
        reveal_with_fuel(children_run, 2);
        assert(next.followed_by(Run::advance(0)).effects =~= next.effects);
    }
}

/// No node reaches past the end of the data, and a node that decodes without
/// error takes at least its prefix and its fixed fields from the stream. So
/// of two children of one directory the later one begins at the larger
/// offset.
pub proof fn law_node_lies_in_stream(data: Seq<u8>, pos: nat, path: Seq<Seq<char>>)
    requires
        pos <= data.len(),
    ensures
        pos + node_run(data, pos, path).consumed <= data.len(),
        node_run(data, pos, path).error is None ==> node_run(data, pos, path).consumed >= 17,
    decreases bytes_left(data, pos), 0nat,
{
    if bytes_left(data, pos) >= 5 && data[pos as int + 4] == 0 && name_fits(data, pos + 13)
        && valid_utf8(name_bytes(data, pos + 13)) {
        let name = name_bytes(data, pos + 13);
        law_children_lie_in_stream(
            data,
            pos + 17 + name.len(),
            path.push(decode_utf8(name)),
            be_u32(data, pos + 9),
        );
    }
}

/// No sequence of children reaches past the end of the data.
pub proof fn law_children_lie_in_stream(
    data: Seq<u8>,
    pos: nat,
    path: Seq<Seq<char>>,
    count: nat,
)
    requires
        pos <= data.len(),
    ensures
        pos + children_run(data, pos, path, count).consumed <= data.len(),
    decreases bytes_left(data, pos), count,
{
    if count > 0 {
        let first = node_run(data, pos, path);
        law_node_lies_in_stream(data, pos, path);
        law_children_lie_in_stream(data, pos + first.consumed, path, (count - 1) as nat);
    }
}

/// The first child that fails ends the decode of all of them: what was
/// requested before it stays, its error is the outcome, and nothing behind
/// it is decoded.
pub proof fn law_failure_ends_the_decode(
    data: Seq<u8>,
    pos: nat,
    path: Seq<Seq<char>>,
    done: nat,
    count: nat,
)
    requires
        done < count,
        children_run(data, pos, path, done).error is None,
        node_run(data, pos + children_run(data, pos, path, done).consumed, path).error is Some,
    ensures
        children_run(data, pos, path, count) == children_run(data, pos, path, done).followed_by(
            node_run(data, pos + children_run(data, pos, path, done).consumed, path),
        ),
        children_run(data, pos, path, count).error == node_run(
            data,
            pos + children_run(data, pos, path, done).consumed,
            path,
        ).error,
{
    law_children_in_stream_order(data, pos, path, done, count);
}

/// Whether one of the first `upto` effects creates `container`.
pub open spec fn created_before(
    effects: Seq<EffectModel>,
    upto: int,
    container: Seq<Seq<char>>,
) -> bool {
    exists|i: int|
        0 <= i < upto && #[trigger] effects[i] == (EffectModel::CreateContainer {
            path: container,
        })
}

/// Whether every effect finds its container in place: each effect names a
/// path of at least one name, and what holds the last name is `base` or a
/// container that an earlier effect creates.
pub open spec fn containers_come_first(effects: Seq<EffectModel>, base: Seq<Seq<char>>) -> bool {
    forall|j: int|
        0 <= j < effects.len() ==> {
            let path = (#[trigger] effects[j]).path();
            &&& path.len() > 0
            &&& path.drop_last() == base || created_before(effects, j, path.drop_last())
        }
}

proof fn lemma_containers_first_one_after_another(
    a: Seq<EffectModel>,
    b: Seq<EffectModel>,
    base: Seq<Seq<char>>,
)
    requires
        containers_come_first(a, base),
        containers_come_first(b, base),
    ensures
        containers_come_first(a + b, base),
{
    let both = a + b;
    assert forall|j: int| 0 <= j < both.len() implies {
        let path = (#[trigger] both[j]).path();
        &&& path.len() > 0
        &&& path.drop_last() == base || created_before(both, j, path.drop_last())
    } by {
        if j < a.len() {
            let path = a[j].path();
            if path.drop_last() != base {
                let i = choose|i: int|
                    0 <= i < j && #[trigger] a[i] == (EffectModel::CreateContainer {
                        path: path.drop_last(),
                    });
                assert(both[i] == a[i]);
            }
        } else {
            let path = b[j - a.len()].path();
            if path.drop_last() != base {
                let i = choose|i: int|
                    0 <= i < j - a.len() && #[trigger] b[i] == (EffectModel::CreateContainer {
                        path: path.drop_last(),
                    });
                assert(both[a.len() + i] == b[i]);
            }
        }
    }
}

proof fn lemma_containers_first_in_a_directory(
    inside: Seq<EffectModel>,
    base: Seq<Seq<char>>,
    name: Seq<char>,
)
    requires
        containers_come_first(inside, base.push(name)),
    ensures
        containers_come_first(
            seq![EffectModel::CreateContainer { path: base.push(name) }] + inside,
            base,
        ),
{
    let made = base.push(name);
    let all = seq![EffectModel::CreateContainer { path: made }] + inside;
    assert(made.drop_last() =~= base);
    assert forall|j: int| 0 <= j < all.len() implies {
        let path = (#[trigger] all[j]).path();
        &&& path.len() > 0
        &&& path.drop_last() == base || created_before(all, j, path.drop_last())
    } by {
        if j > 0 {
            let path = inside[j - 1].path();
            if path.drop_last() == made {
                assert(all[0] == EffectModel::CreateContainer { path: made });
            } else {
                let i = choose|i: int|
                    0 <= i < j - 1 && #[trigger] inside[i] == (EffectModel::CreateContainer {
                        path: path.drop_last(),
                    });
                assert(all[i + 1] == inside[i]);
            }
        }
    }
}

/// Containers come before what lies in them: of the effects of a node
/// decoded below `path`, each finds its container in place, be it `path`
/// itself or a directory that the node has created by then.
pub proof fn law_node_creates_containers_first(data: Seq<u8>, pos: nat, path: Seq<Seq<char>>)
    ensures
        containers_come_first(node_run(data, pos, path).effects, path),
    decreases bytes_left(data, pos), 0nat,
{
    let run = node_run(data, pos, path);
    if bytes_left(data, pos) >= 5 {
        if data[pos as int + 4] == 0 {
            let dir = dir_run(data, pos + 5, path);
            assert(run.effects =~= dir.effects);
            if name_fits(data, pos + 13) && valid_utf8(name_bytes(data, pos + 13)) {
                let name = name_bytes(data, pos + 13);
                let inner = path.push(decode_utf8(name));
                let below = children_run(data, pos + 17 + name.len(), inner, be_u32(data, pos + 9));
                law_children_create_containers_first(
                    data,
                    pos + 17 + name.len(),
                    inner,
                    be_u32(data, pos + 9),
                );
                lemma_containers_first_in_a_directory(below.effects, path, decode_utf8(name));
            }
        } else {
            let file = file_run(data, pos + 5, path);
            assert(run.effects =~= file.effects);
            if file.effects.len() > 0 {
                let name = name_bytes(data, pos + 25);
                assert(path.push(decode_utf8(name)).drop_last() =~= path);
            }
        }
    }
}

/// Containers come before what lies in them, for a sequence of nodes.
pub proof fn law_children_create_containers_first(
    data: Seq<u8>,
    pos: nat,
    path: Seq<Seq<char>>,
    count: nat,
)
    ensures
        containers_come_first(children_run(data, pos, path, count).effects, path),
    decreases bytes_left(data, pos), count,
{
    if count > 0 {
        let first = node_run(data, pos, path);
        let rest = children_run(data, pos + first.consumed, path, (count - 1) as nat);
        law_node_creates_containers_first(data, pos, path);
        law_children_create_containers_first(
            data,
            pos + first.consumed,
            path,
            (count - 1) as nat,
        );
        lemma_containers_first_one_after_another(first.effects, rest.effects, path);
    }
}

/// In a whole archive every effect finds its container in place: the output
/// root, or a directory created by an earlier effect.
pub proof fn law_archive_creates_containers_first(data: Seq<u8>)
    ensures
        containers_come_first(archive_run(data).effects, Seq::empty()),
{
    if has_magic_tag(data) && data.len() >= 40 {
        let entries = children_run(data, 40, Seq::empty(), be_u32(data, 16));
        law_children_create_containers_first(data, 40, Seq::empty(), be_u32(data, 16));
        assert(archive_run(data).effects =~= entries.effects);
    }
}

/// A directory whose name is not valid UTF-8 fails with `InvalidEncoding`:
/// it is not created and none of its children is decoded.
pub proof fn law_bad_directory_name(data: Seq<u8>, fields: nat, path: Seq<Seq<char>>)
    requires
        name_fits(data, fields + 8),
        !valid_utf8(name_bytes(data, fields + 8)),
    ensures
        dir_run(data, fields, path).error == Some(DecodeError::InvalidEncoding),
        dir_run(data, fields, path).effects == Seq::<EffectModel>::empty(),
{
}

/// A file whose name is not valid UTF-8 fails with `InvalidEncoding` and is
/// not written.
pub proof fn law_bad_file_name(data: Seq<u8>, fields: nat, path: Seq<Seq<char>>)
    requires
        name_fits(data, fields + 20),
        !valid_utf8(name_bytes(data, fields + 20)),
    ensures
        file_run(data, fields, path).error == Some(DecodeError::InvalidEncoding),
        file_run(data, fields, path).effects == Seq::<EffectModel>::empty(),
{
}

/// A directory whose fields or name reach past the end of the data fails with
/// `TruncatedInput`: it is not created and none of its children is decoded.
pub proof fn law_directory_cut_short(data: Seq<u8>, fields: nat, path: Seq<Seq<char>>)
    requires
        !name_fits(data, fields + 8),
    ensures
        dir_run(data, fields, path).error == Some(DecodeError::TruncatedInput),
        dir_run(data, fields, path).effects == Seq::<EffectModel>::empty(),
{
}

/// A file whose fields or name reach past the end of the data, or whose
/// payload does, fails with `TruncatedInput` and is not written.
pub proof fn law_file_cut_short(data: Seq<u8>, fields: nat, path: Seq<Seq<char>>)
    requires
        !name_fits(data, fields + 20) || (valid_utf8(name_bytes(data, fields + 20))
            && file_request(
            data,
            fields,
            path.push(decode_utf8(name_bytes(data, fields + 20))),
        ) is None),
    ensures
        file_run(data, fields, path).error == Some(DecodeError::TruncatedInput),
        file_run(data, fields, path).effects == Seq::<EffectModel>::empty(),
{
}

/// An archive that does not begin with the magic tag requests nothing and
/// fails with `BadMagicTag`.
pub proof fn law_bad_magic_requests_nothing(data: Seq<u8>)
    requires
        !has_magic_tag(data),
    ensures
        archive_run(data).error == Some(DecodeError::BadMagicTag),
        archive_run(data).effects == Seq::<EffectModel>::empty(),
{
}

} // verus!
