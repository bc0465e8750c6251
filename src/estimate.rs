use vstd::prelude::*;
use vstd::utf8::encode_utf8;
use crate::manifest::{AudioFileInfo, manifest_layout, names_addressable};

verus! {

/// Size of one section header: a four-byte tag and a 32-bit length.
pub const SECTION_HEADER: usize = 8;

/// `n` rounded up to the next multiple of 16.
pub open spec fn round16(n: nat) -> nat {
    ((n + 15) / 16 * 16) as nat
}

/// Bytes of everything before the names blob for `count` entries: the file
/// header, the index section, the id table, the name-offset table, the
/// data-offset table (two words per entry) and the names section header.
pub open spec fn string_section_start(count: nat) -> nat {
    8 + 16 + (8 + 4 * count) + (8 + 4 * count) + (8 + 8 * count) + 8
}

/// The names blob: each name's bytes followed by one terminator byte.
pub open spec fn names_blob_len(es: Seq<(nat, nat)>) -> nat
    decreases es.len(),
{
    if es.len() == 0 {
        0
    } else {
        names_blob_len(es.drop_last()) + es.last().0 + 1
    }
}

/// The payload blob when each payload is padded to a multiple of 16.
pub open spec fn padded_payloads_len(es: Seq<(nat, nat)>) -> nat
    decreases es.len(),
{
    if es.len() == 0 {
        0
    } else {
        padded_payloads_len(es.drop_last()) + round16(es.last().1)
    }
}

/// Padding that moves `offset` to a position congruent to 8 modulo 16.
pub open spec fn junk_pad(offset: nat) -> nat {
    ((0x18 - (offset % 16) as int) % 16) as nat
}

/// Offset at which the payload blob starts.
pub open spec fn pack_section_start(es: Seq<(nat, nat)>) -> nat {
    let strings_end = string_section_start(es.len()) + names_blob_len(es);
    let header = SECTION_HEADER as nat;
    (strings_end + header + junk_pad((strings_end + header) as nat) + header) as nat
}

/// Byte length of the payload blob: a single entry is stored unpadded.
pub open spec fn payloads_len(es: Seq<(nat, nat)>) -> nat {
    if es.len() == 1 {
        es[0].1
    } else {
        padded_payloads_len(es)
    }
}

/// Byte length of the container built from entries with these name lengths
/// and payload sizes, when no payload is stored once for several entries.
pub open spec fn container_size(es: Seq<(nat, nat)>) -> nat {
    pack_section_start(es) + payloads_len(es)
}

proof fn lemma_names_blob_prefix(es: Seq<(nat, nat)>, i: int)
    requires
        0 <= i <= es.len(),
    ensures
        names_blob_len(es.take(i)) <= names_blob_len(es),
    decreases es.len(),
{
    if i < es.len() {
        assert(es.drop_last().take(i) =~= es.take(i));
        lemma_names_blob_prefix(es.drop_last(), i);
    } else {
        assert(es.take(i) =~= es);
    }
}

proof fn lemma_padded_prefix(es: Seq<(nat, nat)>, i: int)
    requires
        0 <= i <= es.len(),
    ensures
        padded_payloads_len(es.take(i)) <= padded_payloads_len(es),
    decreases es.len(),
{
    if i < es.len() {
        assert(es.drop_last().take(i) =~= es.take(i));
        lemma_padded_prefix(es.drop_last(), i);
    } else {
        assert(es.take(i) =~= es);
    }
}

/// Spec view of pairs of (name byte length, payload size).
pub open spec fn pairs_layout(ps: Seq<(usize, usize)>) -> Seq<(nat, nat)> {
    ps.map_values(|p: (usize, usize)| (p.0 as nat, p.1 as nat))
}

/// Byte length of the container whose entries have the given name byte
/// lengths and payload sizes: `None` exactly when it does not fit in a `usize`.
pub fn layout_size(ps: &[(usize, usize)]) -> (r: Option<usize>)
    ensures
        match r {
            Some(n) => n == container_size(pairs_layout(ps@)),
            None => container_size(pairs_layout(ps@)) > usize::MAX,
        },
{
    let ghost es = pairs_layout(ps@);
    let count = ps.len();
    if count > (usize::MAX - 56) / 16 {
        return None;
    }
    let start: usize = 56 + 16 * count;
    assert(start == string_section_start(es.len()));

    let mut strings: usize = 0;
    let mut i: usize = 0;
    while i < count
        invariant
            es == pairs_layout(ps@),
            count == ps@.len(),
            i <= count,
            start == string_section_start(es.len()),
            strings == names_blob_len(es.take(i as int)),
            start + strings <= usize::MAX,
        decreases count - i,
    {
        assert(es.take(i + 1).drop_last() =~= es.take(i as int));
        assert(es.take(i + 1).last() == es[i as int]);
        let name_len = ps[i].0;
        if name_len >= usize::MAX - start - strings {
            proof { lemma_names_blob_prefix(es, i + 1); }
            return None;
        }
        strings = strings + name_len + 1;
        i = i + 1;
    }
    assert(es.take(count as int) =~= es);
    let strings_end = start + strings;
    if strings_end > usize::MAX - 2 * SECTION_HEADER - 15 {
        return None;
    }
    let pad = (0x18 - (strings_end + SECTION_HEADER) % 16) % 16;
    let pack_start = strings_end + SECTION_HEADER + pad + SECTION_HEADER;
    assert(pack_start == pack_section_start(es));

    if count == 1 {
        let size = ps[0].1;
        if size > usize::MAX - pack_start {
            return None;
        }
        return Some(pack_start + size);
    }
    let mut packed: usize = 0;
    let mut j: usize = 0;
    while j < count
        invariant
            es == pairs_layout(ps@),
            count == ps@.len(),
            count != 1,
            j <= count,
            pack_start == pack_section_start(es),
            packed == padded_payloads_len(es.take(j as int)),
            pack_start + packed <= usize::MAX,
        decreases count - j,
    {
        assert(es.take(j + 1).drop_last() =~= es.take(j as int));
        assert(es.take(j + 1).last() == es[j as int]);
        let size = ps[j].1;
        if size > usize::MAX - 15 {
            proof { lemma_padded_prefix(es, j + 1); }
            return None;
        }
        let rounded = (size + 15) / 16 * 16;
        if rounded > usize::MAX - pack_start - packed {
            proof { lemma_padded_prefix(es, j + 1); }
            return None;
        }
        packed = packed + rounded;
        j = j + 1;
    }
    assert(es.take(count as int) =~= es);
    Some(pack_start + packed)
}

/// Predicts the byte length of the container built from `files` without
/// reading any payload: `None` exactly when that length does not fit in a
/// `usize`.
pub fn calc_nus3_size(files: &[AudioFileInfo]) -> (r: Option<usize>)
    requires
        names_addressable(files@),
    ensures
        match r {
            Some(n) => n == container_size(manifest_layout(files@)),
            None => container_size(manifest_layout(files@)) > usize::MAX,
        },
{
    let mut ps: Vec<(usize, usize)> = Vec::with_capacity(files.len());
    let mut i: usize = 0;
    while i < files.len()
        invariant
            names_addressable(files@),
            i <= files@.len(),
            ps@.len() == i,
            forall|k: int|
                0 <= k < i ==> ((#[trigger] ps@[k]).0 as nat, ps@[k].1 as nat) == manifest_layout(
                    files@,
                )[k],
        decreases files@.len() - i,
    {
        let name_len = files[i].name.as_str().len();
        assert(encode_utf8(files@[i as int].name@).len() <= usize::MAX);
        ps.push((name_len, files[i].size));
        i = i + 1;
    }
    assert(pairs_layout(ps@) =~= manifest_layout(files@));
    layout_size(ps.as_slice())
}

} // verus!
