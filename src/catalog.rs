use vstd::prelude::*;
use std::collections::HashMap;
use crate::estimate::{calc_nus3_size, container_size};
use crate::manifest::{AudioFileInfo, manifest_layout, names_addressable};
use crate::path::{has_prefix, is_stream_path};

verus! {

broadcast use vstd::std_specs::hash::group_hash_axioms;

/// The manifests of all discovered container directories, keyed by the
/// 64-bit hash of their logical paths.
pub struct Catalog {
    manifests: HashMap<u64, Vec<AudioFileInfo>>,
}

impl View for Catalog {
    type V = Map<u64, Seq<AudioFileInfo>>;

    closed spec fn view(&self) -> Map<u64, Seq<AudioFileInfo>> {
        self.manifests@.map_values(|v: Vec<AudioFileInfo>| v@)
    }
}

impl Catalog {
    /// An empty catalog.
    pub fn new() -> (r: Catalog)
        ensures
            r@ == Map::<u64, Seq<AudioFileInfo>>::empty(),
    {
        let r = Catalog { manifests: HashMap::new() };
        assert(r@ =~= Map::<u64, Seq<AudioFileInfo>>::empty());
        r
    }

    /// Registers `files` as the manifest of `key`, replacing any earlier one.
    pub fn insert(&mut self, key: u64, files: Vec<AudioFileInfo>)
        ensures
            final(self)@ == old(self)@.insert(key, files@),
    {
        self.manifests.insert(key, files);
        assert(final(self)@ =~= old(self)@.insert(key, files@));
    }

    /// The manifest registered under `key`, if any.
    pub fn lookup(&self, key: u64) -> (r: Option<&Vec<AudioFileInfo>>)
        ensures
            r is None <==> !self@.contains_key(key),
            r matches Some(files) ==> files@ == self@[key],
    {
        self.manifests.get(&key)
    }
}

/// How the host is asked to serve a container directory.
#[derive(Debug, PartialEq, Eq, Structural)]
pub enum HookMode {
    /// The container is produced on demand into a buffer sized to fit it.
    Stream,
    /// The caller reserves a buffer of the predicted size.
    Fixed(usize),
}

/// Chooses how the directory at logical path `arc_path` with manifest
/// `files` is registered: streamed when the path begins with `stream`, else
/// a fixed buffer of the predicted container size. `None` when that size
/// does not fit in a `usize`.
pub fn hook_mode(arc_path: &str, files: &[AudioFileInfo]) -> (r: Option<HookMode>)
    requires
        names_addressable(files@),
    ensures
        has_prefix(arc_path@, "stream"@) ==> r == Some(HookMode::Stream),
        !has_prefix(arc_path@, "stream"@) ==> match r {
            Some(m) => m == HookMode::Fixed(container_size(manifest_layout(files@)) as usize)
                && container_size(manifest_layout(files@)) <= usize::MAX,
            None => container_size(manifest_layout(files@)) > usize::MAX,
        },
{
    if is_stream_path(arc_path) {
        Some(HookMode::Stream)
    } else {
        match calc_nus3_size(files) {
            Some(size) => Some(HookMode::Fixed(size)),
            None => None,
        }
    }
}

/// What became of a container offered to a fixed-size buffer.
#[derive(Debug, PartialEq, Eq, Structural)]
pub enum FillOutcome {
    /// The container fit and its bytes now start the buffer.
    Written(usize),
    /// The container is longer than the buffer; nothing was written.
    Overflow { actual: usize, capacity: usize },
}

/// Copies `bytes` to the start of `buf` when they fit; otherwise leaves
/// `buf` untouched and reports the overflow.
pub fn fill_buffer(buf: &mut [u8], bytes: &[u8]) -> (r: FillOutcome)
    ensures
        bytes@.len() <= old(buf)@.len() ==> {
            &&& r == FillOutcome::Written(bytes@.len() as usize)
            &&& final(buf)@ == bytes@ + old(buf)@.skip(bytes@.len() as int)
        },
        bytes@.len() > old(buf)@.len() ==> {
            &&& r == (FillOutcome::Overflow {
                actual: bytes@.len() as usize,
                capacity: old(buf)@.len() as usize,
            })
            &&& final(buf)@ == old(buf)@
        },
{
    if bytes.len() > buf.len() {
        return FillOutcome::Overflow { actual: bytes.len(), capacity: buf.len() };
    }
    let mut i: usize = 0;
    while i < bytes.len()
        invariant
            bytes@.len() <= old(buf)@.len(),
            buf@.len() == old(buf)@.len(),
            i <= bytes@.len(),
            forall|k: int| 0 <= k < i ==> buf@[k] == bytes@[k],
            forall|k: int| i <= k < buf@.len() ==> buf@[k] == old(buf)@[k],
        decreases bytes@.len() - i,
    {
        buf[i] = bytes[i];
        i = i + 1;
    }
    assert(buf@ =~= bytes@ + old(buf)@.skip(bytes@.len() as int));
    FillOutcome::Written(bytes.len())
}

} // verus!
