use vstd::prelude::*;
use vstd::utf8::encode_utf8;
use crate::estimate::{container_size, layout_size, pairs_layout, pack_section_start};
use crate::manifest::{AudioFileInfo, manifest_layout, names_addressable};

verus! {

/// One track handed to the container writer: its identifier, its name and
/// its payload bytes.
pub struct AudioEntry {
    pub id: u32,
    pub name: String,
    pub data: Vec<u8>,
}

/// Spec view of a track: (identifier, name, payload).
pub open spec fn audio_entry_view(e: AudioEntry) -> (u32, Seq<char>, Seq<u8>) {
    (e.id, e.name@, e.data@)
}

pub open spec fn entries_view(es: Seq<AudioEntry>) -> Seq<(u32, Seq<char>, Seq<u8>)> {
    es.map_values(|e: AudioEntry| audio_entry_view(e))
}

/// The layout model of tracks: (name byte length, payload byte length).
pub open spec fn tracks_layout(ts: Seq<(u32, Seq<char>, Seq<u8>)>) -> Seq<(nat, nat)> {
    ts.map_values(|t: (u32, Seq<char>, Seq<u8>)| (encode_utf8(t.1).len(), t.2.len()))
}

/// The bytes of the NUS3 container that the nus3audio writer produces for
/// these tracks, in this order.
pub uninterp spec fn nus3_bytes(tracks: Seq<(u32, Seq<char>, Seq<u8>)>) -> Seq<u8>;

/// Relies on nus3audio's `Nus3audioFile::write`: it serialises the tracks
/// with the same header, table, name and padding sections that
/// `container_size` counts, and stores a payload whose CRC32 it has already
/// stored only once, so the result is never longer than that prediction and
/// matches it when there is at most one track. Its offsets are 32-bit sums,
/// which must not overflow.
#[verifier::external_body]
fn write_nus3audio(files: Vec<AudioEntry>) -> (r: Vec<u8>)
    requires
        container_size(tracks_layout(entries_view(files@))) <= u32::MAX,
    ensures
        r@ == nus3_bytes(entries_view(files@)),
        r@.len() <= container_size(tracks_layout(entries_view(files@))),
        files@.len() <= 1 ==> r@.len() == container_size(tracks_layout(entries_view(files@))),
{
    let nus3_file = nus3audio::Nus3audioFile {
        files: files.into_iter().map(
            |e| nus3audio::AudioFile { id: e.id, name: e.name, data: e.data },
        ).collect(),
    };
    let mut bytes: Vec<u8> = Vec::with_capacity(nus3_file.calc_size());
    nus3_file.write(&mut bytes);
    bytes
}

/// Serialises `audio_list` as a NUS3 container.
pub fn make_nus3audio(audio_list: Vec<AudioEntry>) -> (r: Vec<u8>)
    requires
        container_size(tracks_layout(entries_view(audio_list@))) <= u32::MAX,
    ensures
        r@ == nus3_bytes(entries_view(audio_list@)),
        r@.len() <= container_size(tracks_layout(entries_view(audio_list@))),
        audio_list@.len() <= 1 ==> r@.len() == container_size(
            tracks_layout(entries_view(audio_list@)),
        ),
{
    write_nus3audio(audio_list)
}

/// The tracks of a fetched manifest: each entry keeps its name, takes the
/// payload read for it and its position in the manifest as identifier.
pub open spec fn fetched_tracks(files: Seq<AudioFileInfo>, payloads: Seq<Vec<u8>>) -> Seq<
    (u32, Seq<char>, Seq<u8>),
> {
    Seq::new(files.len(), |k: int| (k as u32, files[k].name@, payloads[k]@))
}

/// Builds the container of a manifest from the payloads read for its
/// entries, numbering the entries from zero in manifest order. `None`
/// exactly when the container would exceed the 32-bit offsets of the format.
pub fn build_container(files: &[AudioFileInfo], payloads: Vec<Vec<u8>>) -> (r: Option<Vec<u8>>)
    requires
        files@.len() == payloads@.len(),
        names_addressable(files@),
    ensures
        r is Some <==> container_size(tracks_layout(fetched_tracks(files@, payloads@))) <= u32::MAX,
        r matches Some(bytes) ==> {
            &&& bytes@ == nus3_bytes(fetched_tracks(files@, payloads@))
            &&& bytes@.len() <= container_size(tracks_layout(fetched_tracks(files@, payloads@)))
            &&& files@.len() <= 1 ==> bytes@.len() == container_size(
                tracks_layout(fetched_tracks(files@, payloads@)),
            )
        },
{
    let ghost tracks = fetched_tracks(files@, payloads@);
    let n = files.len();
    let mut ps: Vec<(usize, usize)> = Vec::with_capacity(n);
    let mut i: usize = 0;
    while i < n
        invariant
            names_addressable(files@),
            n == files@.len(),
            n == payloads@.len(),
            tracks == fetched_tracks(files@, payloads@),
            i <= n,
            ps@.len() == i,
            forall|k: int|
                0 <= k < i ==> ((#[trigger] ps@[k]).0 as nat, ps@[k].1 as nat) == tracks_layout(
                    tracks,
                )[k],
        decreases n - i,
    {
        let name_len = files[i].name.as_str().len();
        assert(encode_utf8(files@[i as int].name@).len() <= usize::MAX);
        ps.push((name_len, payloads[i].len()));
        i = i + 1;
    }
    assert(pairs_layout(ps@) =~= tracks_layout(tracks));
    match layout_size(ps.as_slice()) {
        Some(total) if total <= 0xffff_ffff => {},
        _ => {
            return None;
        },
    }
    let mut entries: Vec<AudioEntry> = Vec::with_capacity(n);
    let mut j: usize = 0;
    while j < n
        invariant
            n == files@.len(),
            n == payloads@.len(),
            tracks == fetched_tracks(files@, payloads@),
            container_size(tracks_layout(tracks)) <= u32::MAX,
            j <= n,
            entries@.len() == j,
            forall|k: int| 0 <= k < j ==> audio_entry_view(#[trigger] entries@[k]) == tracks[k],
        decreases n - j,
    {
        proof { lemma_count_fits(tracks_layout(tracks)); }
        let data = payloads[j].clone();
        assert(data@ =~= payloads@[j as int]@);
        entries.push(AudioEntry { id: j as u32, name: files[j].name.clone(), data });
        j = j + 1;
    }
    assert(entries_view(entries@) =~= tracks);
    Some(write_nus3audio(entries))
}

/// When every payload read for a manifest has the size recorded for its
/// entry, the layout the estimator predicts from the manifest is the layout
/// of the tracks built from those payloads. With the guarantees of
/// `build_container`, the container is then never longer than the estimate,
/// and exactly as long when the manifest holds at most one entry.
pub proof fn lemma_estimate_covers_built(files: Seq<AudioFileInfo>, payloads: Seq<Vec<u8>>)
    requires
        files.len() == payloads.len(),
        forall|k: int| 0 <= k < files.len() ==> (#[trigger] payloads[k])@.len() == files[k].size,
    ensures
        tracks_layout(fetched_tracks(files, payloads)) == manifest_layout(files),
        container_size(tracks_layout(fetched_tracks(files, payloads))) == container_size(
            manifest_layout(files),
        ),
{
    assert(tracks_layout(fetched_tracks(files, payloads)) =~= manifest_layout(files));
}

/// A manifest of one entry is predicted with that entry's exact size, not
/// its size rounded up to a multiple of 16.
pub proof fn lemma_single_entry_unpadded(files: Seq<AudioFileInfo>)
    requires
        files.len() == 1,
    ensures
        container_size(manifest_layout(files)) == pack_section_start(manifest_layout(files))
            + files[0].size,
{
}

proof fn lemma_count_fits(es: Seq<(nat, nat)>)
    ensures
        es.len() <= container_size(es),
{
}

} // verus!
