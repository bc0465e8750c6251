use vstd::prelude::*;
use vstd::utf8::encode_utf8;

verus! {

/// One file of a container source directory: its base name, its size on disk
/// and where its bytes can be read from later.
#[derive(Clone, Debug)]
pub struct AudioFileInfo {
    pub name: String,
    pub size: usize,
    pub path: String,
}

/// What the container layout reads of an entry: the byte length of its name
/// (UTF-8) and the byte length of its payload.
pub open spec fn entry_layout(f: AudioFileInfo) -> (nat, nat) {
    (encode_utf8(f.name@).len(), f.size as nat)
}

/// The layout model of a whole manifest, entry by entry.
pub open spec fn manifest_layout(files: Seq<AudioFileInfo>) -> Seq<(nat, nat)> {
    files.map_values(|f: AudioFileInfo| entry_layout(f))
}

/// Each name's UTF-8 encoding has a length that a `usize` can hold, as it
/// does for every string held in memory.
pub open spec fn names_addressable(files: Seq<AudioFileInfo>) -> bool {
    forall|i: int| 0 <= i < files.len() ==> encode_utf8(#[trigger] files[i].name@).len() <= usize::MAX
}

/// Byte-wise lexicographic order: `a` sorts no later than `b`.
pub open spec fn bytes_le(a: Seq<u8>, b: Seq<u8>) -> bool
    decreases a.len(),
{
    if a.len() == 0 {
        true
    } else if b.len() == 0 {
        false
    } else if a[0] != b[0] {
        a[0] < b[0]
    } else {
        bytes_le(a.skip(1), b.skip(1))
    }
}

/// The bytes of an entry's file name.
pub open spec fn name_bytes(f: AudioFileInfo) -> Seq<u8> {
    encode_utf8(f.name@)
}

/// Entries stand in ascending order of file name.
pub open spec fn sorted_by_name(files: Seq<AudioFileInfo>) -> bool {
    forall|i: int, j: int|
        0 <= i < j < files.len() ==> bytes_le(
            #[trigger] name_bytes(files[i]),
            #[trigger] name_bytes(files[j]),
        )
}

proof fn lemma_bytes_le_total(a: Seq<u8>, b: Seq<u8>)
    ensures
        bytes_le(a, b) || bytes_le(b, a),
    decreases a.len(),
{
    if a.len() > 0 && b.len() > 0 && a[0] == b[0] {
        lemma_bytes_le_total(a.skip(1), b.skip(1));
    }
}

proof fn lemma_bytes_le_trans(a: Seq<u8>, b: Seq<u8>, c: Seq<u8>)
    requires
        bytes_le(a, b),
        bytes_le(b, c),
    ensures
        bytes_le(a, c),
    decreases a.len(),
{
    if a.len() > 0 && b.len() > 0 && c.len() > 0 && a[0] == b[0] && b[0] == c[0] {
        lemma_bytes_le_trans(a.skip(1), b.skip(1), c.skip(1));
    }
}

fn bytes_le_from(a: &[u8], b: &[u8], i: usize) -> (r: bool)
    requires
        i <= a@.len(),
        i <= b@.len(),
    ensures
        r == bytes_le(a@.skip(i as int), b@.skip(i as int)),
    decreases a@.len() - i,
{
    if i == a.len() {
        true
    } else if i == b.len() {
        false
    } else if a[i] != b[i] {
        a[i] < b[i]
    } else {
        assert(a@.skip(i as int).skip(1) =~= a@.skip(i + 1));
        assert(b@.skip(i as int).skip(1) =~= b@.skip(i + 1));
        bytes_le_from(a, b, i + 1)
    }
}

/// Whether the name of `a` sorts no later than the name of `b`.
pub fn name_le(a: &AudioFileInfo, b: &AudioFileInfo) -> (r: bool)
    ensures
        r == bytes_le(name_bytes(*a), name_bytes(*b)),
{
    let x = a.name.as_str().as_bytes();
    let y = b.name.as_str().as_bytes();
    assert(x@.skip(0) =~= x@);
    assert(y@.skip(0) =~= y@);
    bytes_le_from(x, y, 0)
}

/// Orders a directory listing by file name, as a manifest is ordered: the
/// result holds the same entries, in ascending byte order of their names.
pub fn sort_by_file_name(files: Vec<AudioFileInfo>) -> (r: Vec<AudioFileInfo>)
    ensures
        r@.to_multiset() == files@.to_multiset(),
        sorted_by_name(r@),
{
    broadcast use vstd::seq_lib::group_to_multiset_ensures;

    let mut rest = files;
    let mut out: Vec<AudioFileInfo> = Vec::new();
    while rest.len() > 0
        invariant
            out@.to_multiset().add(rest@.to_multiset()) == files@.to_multiset(),
            sorted_by_name(out@),
        decreases rest@.len(),
    {
        let ghost before = rest@;
        let x = rest.pop().unwrap();
        assert(before =~= rest@.push(x));
        proof {
            rest@.to_multiset_ensures();
            assert(before.to_multiset() =~= rest@.to_multiset().insert(x));
        }
        let mut p: usize = 0;
        while p < out.len() && name_le(&out[p], &x)
            invariant
                p <= out@.len(),
                forall|k: int| 0 <= k < p ==> bytes_le(#[trigger] name_bytes(out@[k]), name_bytes(x)),
            decreases out@.len() - p,
        {
            p = p + 1;
        }
        let ghost old_out = out@;
        if p < out.len() {
            proof { lemma_bytes_le_total(name_bytes(x), name_bytes(out@[p as int])); }
        }
        out.insert(p, x);
        proof {
            assert(out@.remove(p as int) =~= old_out);
            assert(out@[p as int] == x);
            out@.to_multiset_ensures();
            assert(out@.remove(p as int).to_multiset() == out@.to_multiset().remove(x));
            assert(out@.contains(x));
            assert(out@.to_multiset().count(x) > 0);
            assert(out@.to_multiset() =~= old_out.to_multiset().insert(x));
            assert(out@.to_multiset().add(rest@.to_multiset()) =~= old_out.to_multiset().add(
                before.to_multiset(),
            ));
            assert forall|i: int, j: int| 0 <= i < j < out@.len() implies bytes_le(
                #[trigger] name_bytes(out@[i]),
                #[trigger] name_bytes(out@[j]),
            ) by {
                if j == p {
                } else if i == p {
                    assert(name_bytes(out@[j]) == name_bytes(old_out[j - 1]));
                    if j - 1 > p {
                        assert(bytes_le(name_bytes(old_out[p as int]), name_bytes(old_out[j - 1])));
                        lemma_bytes_le_trans(
                            name_bytes(x),
                            name_bytes(old_out[p as int]),
                            name_bytes(old_out[j - 1]),
                        );
                    }
                } else if i < p && j > p {
                    if p < old_out.len() {
                    }
                    assert(name_bytes(old_out[i]) == name_bytes(out@[i]));
                    assert(name_bytes(old_out[j - 1]) == name_bytes(out@[j]));
                } else {
                }
            }
        }
    }
    assert(rest@ =~= Seq::<AudioFileInfo>::empty());
    out
}

} // verus!
