//! Directory-listing logic of the authoring tool: which entries a story
//! listing keeps, and the order they are shown in.
//!
//! The embedding application reads the directory and hands every entry's
//! name, path and kind to this module; it keeps directories and story
//! files (names ending in `.story.json` or `.json`) and sorts them with
//! directories first, then by name in the byte order of their UTF-8 forms.

use vstd::prelude::*;
use vstd::multiset::Multiset;
use vstd::seq_lib::group_to_multiset_ensures;
use vstd::utf8::encode_utf8;
use crate::text::{has_suffix, lex_le, ends_with_chars, str_le, lemma_lex_le_refl, lemma_lex_le_total, lemma_lex_le_trans};

verus! {

broadcast use group_to_multiset_ensures;

/// One directory entry, as the listing reports it.
pub struct FileInfo {
    pub name: String,
    pub path: String,
    pub is_directory: bool,
}

/// The mathematical value of a directory entry.
pub struct FileInfoV {
    pub name: Seq<char>,
    pub path: Seq<char>,
    pub is_directory: bool,
}

impl View for FileInfo {
    type V = FileInfoV;

    open spec fn view(&self) -> FileInfoV {
        FileInfoV { name: self.name@, path: self.path@, is_directory: self.is_directory }
    }
}

/// The entries a listing holds.
pub open spec fn infos_view(s: Seq<FileInfo>) -> Seq<FileInfoV> {
    Seq::new(s.len(), |i: int| s[i]@)
}

/// Whether a story listing keeps an entry: directories and story files.
pub open spec fn is_story_entry(f: FileInfoV) -> bool {
    f.is_directory || has_suffix(f.name, ".story.json"@) || has_suffix(f.name, ".json"@)
}

/// The entries a story listing keeps, in their incoming order.
pub open spec fn story_filter(s: Seq<FileInfoV>) -> Seq<FileInfoV>
    decreases s.len(),
{
    if s.len() == 0 {
        Seq::empty()
    } else if is_story_entry(s.last()) {
        story_filter(s.drop_last()).push(s.last())
    } else {
        story_filter(s.drop_last())
    }
}

/// Keeps exactly the entries a story listing shows, in their order.
pub fn filter_story_entries(entries: &Vec<FileInfo>) -> (r: Vec<FileInfo>)
    ensures
        infos_view(r@) == story_filter(infos_view(entries@)),
{
    let mut out: Vec<FileInfo> = Vec::new();
    let mut i: usize = 0;
    proof {
        assert(infos_view(entries@.subrange(0, 0)) =~= Seq::<FileInfoV>::empty());
        assert(infos_view(out@) =~= Seq::<FileInfoV>::empty());
    }
    while i < entries.len()
        invariant
            i <= entries@.len(),
            infos_view(out@) == story_filter(infos_view(entries@.subrange(0, i as int))),
        decreases entries@.len() - i,
    {
        let e = &entries[i];
        let keep = e.is_directory || ends_with_chars(e.name.as_str(), ".story.json")
            || ends_with_chars(e.name.as_str(), ".json");
        proof {
            let pre = infos_view(entries@.subrange(0, i as int));
            let cur = infos_view(entries@.subrange(0, i + 1));
            assert(cur.len() == i + 1);
            assert(cur.drop_last() =~= pre);
            assert(cur.last() == entries@[i as int]@);
        }
        if keep {
            out.push(
                FileInfo {
                    name: e.name.clone(),
                    path: e.path.clone(),
                    is_directory: e.is_directory,
                },
            );
            proof {
                assert(infos_view(out@) =~= story_filter(
                    infos_view(entries@.subrange(0, i + 1)),
                ));
            }
        } else {
            proof {
                assert(infos_view(out@) =~= story_filter(
                    infos_view(entries@.subrange(0, i + 1)),
                ));
            }
        }
        i = i + 1;
    }
    proof {
        assert(entries@.subrange(0, entries@.len() as int) =~= entries@);
    }
    out
}

/// The listing order: directories before files, and by name within each
/// group — the byte order of the names' UTF-8 forms.
pub open spec fn file_le(a: FileInfoV, b: FileInfoV) -> bool {
    if a.is_directory != b.is_directory {
        a.is_directory
    } else {
        lex_le(encode_utf8(a.name), encode_utf8(b.name))
    }
}

/// The listing order is reflexive.
pub proof fn lemma_file_le_refl(a: FileInfoV)
    ensures
        file_le(a, a),
{
    lemma_lex_le_refl(encode_utf8(a.name));
}

/// The listing order is total.
pub proof fn lemma_file_le_total(a: FileInfoV, b: FileInfoV)
    ensures
        file_le(a, b) || file_le(b, a),
{
    if a.is_directory == b.is_directory {
        lemma_lex_le_total(encode_utf8(a.name), encode_utf8(b.name));
    }
}

/// The listing order is transitive.
pub proof fn lemma_file_le_trans(a: FileInfoV, b: FileInfoV, c: FileInfoV)
    requires
        file_le(a, b),
        file_le(b, c),
    ensures
        file_le(a, c),
{
    if a.is_directory == b.is_directory && b.is_directory == c.is_directory {
        lemma_lex_le_trans(encode_utf8(a.name), encode_utf8(b.name), encode_utf8(c.name));
    }
}

/// Compares two entries in the listing order.
pub fn file_entry_le(a: &FileInfo, b: &FileInfo) -> (r: bool)
    ensures
        r == file_le(a@, b@),
{
    if a.is_directory != b.is_directory {
        a.is_directory
    } else {
        str_le(a.name.as_str(), b.name.as_str())
    }
}

/// Whether a listing stands in the listing order.
pub open spec fn sorted_entries(s: Seq<FileInfoV>) -> bool {
    forall|i: int, j: int| 0 <= i < j < s.len() ==> file_le(s[i], s[j])
}

/// Sorts a listing: directories first, then by name; the entries are
/// exactly those that came in.
pub fn sort_file_entries(entries: Vec<FileInfo>) -> (r: Vec<FileInfo>)
    ensures
        sorted_entries(infos_view(r@)),
        r@.to_multiset() == entries@.to_multiset(),
{
    let ghost orig = entries@;
    let mut rest = entries;
    let mut out: Vec<FileInfo> = Vec::new();
    proof {
        assert(out@.to_multiset().add(rest@.to_multiset()) =~= rest@.to_multiset());
    }
    while rest.len() > 0
        invariant
            out@.to_multiset().add(rest@.to_multiset()) == orig.to_multiset(),
            sorted_entries(infos_view(out@)),
            forall|i: int, j: int|
                0 <= i < out@.len() && 0 <= j < rest@.len() ==> file_le(
                    #[trigger] out@[i]@,
                    #[trigger] rest@[j]@,
                ),
        decreases rest@.len(),
    {
        let mut m: usize = 0;
        let mut k: usize = 1;
        proof {
            lemma_file_le_refl(rest@[0]@);
        }
        while k < rest.len()
            invariant
                m < k <= rest@.len(),
                forall|j: int| 0 <= j < k ==> file_le(rest@[m as int]@, #[trigger] rest@[j]@),
            decreases rest@.len() - k,
        {
            if file_entry_le(&rest[k], &rest[m]) {
                proof {
                    lemma_file_le_refl(rest@[k as int]@);
                    assert forall|j: int| 0 <= j < k + 1 implies file_le(
                        rest@[k as int]@,
                        #[trigger] rest@[j]@,
                    ) by {
                        if j < k {
                            lemma_file_le_trans(rest@[k as int]@, rest@[m as int]@, rest@[j]@);
                        }
                    }
                }
                m = k;
            } else {
                proof {
                    lemma_file_le_total(rest@[m as int]@, rest@[k as int]@);
                }
            }
            k = k + 1;
        }
        let ghost pre_out = out@;
        let ghost pre_rest = rest@;
        let x = rest.remove(m);
        out.push(x);
        proof {
            assert(out@ == pre_out.push(pre_rest[m as int]));
            assert(rest@ == pre_rest.remove(m as int));
            // the new entry follows everything already placed
            assert forall|i: int, j: int|
                0 <= i < j < infos_view(out@).len() implies file_le(
                    infos_view(out@)[i],
                    infos_view(out@)[j],
                ) by {
                assert(infos_view(out@)[i] == out@[i]@);
                assert(infos_view(out@)[j] == out@[j]@);
                assert(out@[i] == pre_out[i]);
                if j < pre_out.len() {
                    assert(infos_view(pre_out)[i] == pre_out[i]@);
                    assert(infos_view(pre_out)[j] == pre_out[j]@);
                    assert(file_le(infos_view(pre_out)[i], infos_view(pre_out)[j]));
                } else {
                    assert(out@[j] == pre_rest[m as int]);
                    assert(file_le(pre_out[i]@, pre_rest[m as int]@));
                }
            }
            // everything placed still precedes everything remaining
            assert forall|i: int, j: int|
                0 <= i < out@.len() && 0 <= j < rest@.len() implies file_le(
                    #[trigger] out@[i]@,
                    #[trigger] rest@[j]@,
                ) by {
                let oj = if j < m { j } else { j + 1 };
                assert(rest@[j] == pre_rest[oj]);
                if i < pre_out.len() {
                    assert(file_le(out@[i]@, rest@[j]@));
                } else {
                    assert(out@[i] == pre_rest[m as int]);
                    assert(file_le(pre_rest[m as int]@, pre_rest[oj]@));
                }
            }
            // the moved entry changes neither side's multiset contents
            assert(out@.to_multiset() =~= pre_out.to_multiset().insert(pre_rest[m as int]));
            assert(rest@.to_multiset() =~= pre_rest.to_multiset().remove(pre_rest[m as int]));
            assert(out@.to_multiset().add(rest@.to_multiset()) =~= pre_out.to_multiset().add(
                pre_rest.to_multiset(),
            ));
        }
    }
    proof {
        assert(rest@.to_multiset() =~= Multiset::<FileInfo>::empty());
        assert(out@.to_multiset().add(Multiset::<FileInfo>::empty()) =~= out@.to_multiset());
    }
    out
}

} // verus!
