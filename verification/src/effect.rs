//! What decoding asks of the output side.

use vstd::prelude::*;

verus! {

/// One request to the output side, as recorded during decoding. A path is the
/// sequence of names from the output root down to the entry.
#[derive(Debug, PartialEq, Eq)]
pub enum Effect {
    /// Create the container at `path`, with any missing ancestors.
    CreateContainer { path: Vec<String> },
    /// Create or overwrite the file at `path` with `data` as its whole content.
    WriteFile { path: Vec<String>, data: Vec<u8> },
    /// Create or overwrite the file at `path`. Its content is what the zlib
    /// stream `stream` inflates to, cut or zero-padded to exactly `size`
    /// bytes; see `fit_to_size`.
    WriteCompressed { path: Vec<String>, stream: Vec<u8>, size: usize },
}

/// What an `Effect` stands for: paths as sequences of names, names as
/// sequences of characters, content and streams as sequences of bytes.
pub enum EffectModel {
    CreateContainer { path: Seq<Seq<char>> },
    WriteFile { path: Seq<Seq<char>>, data: Seq<u8> },
    WriteCompressed { path: Seq<Seq<char>>, stream: Seq<u8>, size: nat },
}

impl EffectModel {
    /// The path that the effect names.
    pub open spec fn path(self) -> Seq<Seq<char>> {
        match self {
            EffectModel::CreateContainer { path } => path,
            EffectModel::WriteFile { path, .. } => path,
            EffectModel::WriteCompressed { path, .. } => path,
        }
    }
}

impl View for Effect {
    type V = EffectModel;

    open spec fn view(&self) -> EffectModel {
        match *self {
            Effect::CreateContainer { path } => EffectModel::CreateContainer {
                path: path.deep_view(),
            },
            Effect::WriteFile { path, data } => EffectModel::WriteFile {
                path: path.deep_view(),
                data: data@,
            },
            Effect::WriteCompressed { path, stream, size } => EffectModel::WriteCompressed {
                path: path.deep_view(),
                stream: stream@,
                size: size as nat,
            },
        }
    }
}

/// The output side of a decode: the effects requested so far, oldest first.
pub struct EffectLog {
    pub entries: Vec<Effect>,
}

impl View for EffectLog {
    type V = Seq<EffectModel>;

    open spec fn view(&self) -> Seq<EffectModel> {
        Seq::new(self.entries@.len(), |i: int| self.entries@[i]@)
    }
}

impl EffectLog {
    /// A log with nothing recorded.
    pub fn new() -> (log: Self)
        ensures
            log.entries@ == Seq::<Effect>::empty(),
            log@ == Seq::<EffectModel>::empty(),
    {
        let log = EffectLog { entries: Vec::new() };
        assert(log@ =~= Seq::<EffectModel>::empty());
        log
    }

    /// Records the request to create the container at `path`.
    pub fn create_dir(&mut self, path: Vec<String>)
        ensures
            final(self).entries@ == old(self).entries@.push(Effect::CreateContainer { path }),
            final(self)@ == old(self)@.push(
                EffectModel::CreateContainer { path: path.deep_view() },
            ),
    {
        self.entries.push(Effect::CreateContainer { path });
        assert(self@ =~= old(self)@.push(EffectModel::CreateContainer { path: path.deep_view() }));
    }

    /// Records the request to write `data` as the file at `path`.
    pub fn create_file(&mut self, path: Vec<String>, data: Vec<u8>)
        ensures
            final(self).entries@ == old(self).entries@.push(Effect::WriteFile { path, data }),
            final(self)@ == old(self)@.push(
                EffectModel::WriteFile { path: path.deep_view(), data: data@ },
            ),
    {
        self.entries.push(Effect::WriteFile { path, data });
        assert(self@ =~= old(self)@.push(
            EffectModel::WriteFile { path: path.deep_view(), data: data@ },
        ));
    }

    /// Records the request to write, as the file at `path`, what `stream`
    /// inflates to, fitted to `size` bytes.
    pub fn create_compressed_file(&mut self, path: Vec<String>, stream: Vec<u8>, size: usize)
        ensures
            final(self).entries@ == old(self).entries@.push(
                Effect::WriteCompressed { path, stream, size },
            ),
            final(self)@ == old(self)@.push(
                EffectModel::WriteCompressed {
                    path: path.deep_view(),
                    stream: stream@,
                    size: size as nat,
                },
            ),
    {
        self.entries.push(Effect::WriteCompressed { path, stream, size });
        assert(self@ =~= old(self)@.push(
            EffectModel::WriteCompressed {
                path: path.deep_view(),
                stream: stream@,
                size: size as nat,
            },
        ));
    }
}

} // verus!
