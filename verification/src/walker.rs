//! Folder walker: an explicit work list of directories still to visit and
//! the supported image paths found so far. The traversal itself is driven
//! from outside (directory listings are I/O); this state machine decides,
//! for every listed entry, whether it is recursed into, collected, or
//! ignored. A directory whose listing cannot be read is simply not absorbed
//! — skipping it is never fatal.
//!
//! The final path list is sorted for determinism, even though traversal
//! order is not.

use vstd::multiset::Multiset;
use vstd::prelude::*;
use vstd::string::StrSliceExecFns;

use crate::classify::{is_supported_image, spec_is_supported};
use crate::errors::GalleryError;

verus! {

/// What kind of filesystem object a directory entry is.
#[derive(Clone, Copy, PartialEq, Eq, Structural)]
pub enum EntryKind {
    /// A directory, to be recursed into.
    Directory,
    /// A regular file, a candidate image.
    RegularFile,
    /// Anything else (sockets, broken links, ...), ignored.
    Other,
}

/// One entry of a directory listing, as plain values.
pub struct DirEntry {
    pub path: String,
    pub kind: EntryKind,
}

/// The directories among a listing, in order.
pub open spec fn dirs_of(entries: Seq<DirEntry>) -> Seq<String>
    decreases entries.len(),
{
    if entries.len() == 0 {
        Seq::empty()
    } else {
        let rest = dirs_of(entries.drop_last());
        if entries.last().kind is Directory {
            rest.push(entries.last().path)
        } else {
            rest
        }
    }
}

/// The supported image files among a listing, in order.
pub open spec fn supported_files_of(entries: Seq<DirEntry>) -> Seq<String>
    decreases entries.len(),
{
    if entries.len() == 0 {
        Seq::empty()
    } else {
        let rest = supported_files_of(entries.drop_last());
        if entries.last().kind is RegularFile && spec_is_supported(entries.last().path@) {
            rest.push(entries.last().path)
        } else {
            rest
        }
    }
}

/// Whether some listing entry is a regular file with this path.
pub open spec fn listed_file(entries: Seq<DirEntry>, p: String) -> bool {
    exists|j: int|
        0 <= j < entries.len() && #[trigger] entries[j].kind is RegularFile && entries[j].path == p
}

/// Law: every path the walker collects from a listing is a supported
/// regular file from that listing; anything with an extension outside the
/// allow-list is excluded entirely.
pub proof fn lemma_supported_files_sound(entries: Seq<DirEntry>)
    ensures
        forall|i: int|
            0 <= i < supported_files_of(entries).len() ==> spec_is_supported(
                #[trigger] supported_files_of(entries)[i]@,
            ),
        forall|i: int|
            0 <= i < supported_files_of(entries).len() ==> listed_file(
                entries,
                #[trigger] supported_files_of(entries)[i],
            ),
    decreases entries.len(),
{
    if entries.len() > 0 {
        lemma_supported_files_sound(entries.drop_last());
        assert forall|i: int| 0 <= i < supported_files_of(entries).len() implies spec_is_supported(
            #[trigger] supported_files_of(entries)[i]@,
        ) by {
            let rest = supported_files_of(entries.drop_last());
            if i < rest.len() {
                assert(supported_files_of(entries)[i] == rest[i]);
            }
        }
        assert forall|i: int| 0 <= i < supported_files_of(entries).len() implies listed_file(
            entries,
            #[trigger] supported_files_of(entries)[i],
        ) by {
            let rest = supported_files_of(entries.drop_last());
            if i < rest.len() {
                let j = choose|j: int|
                    0 <= j < entries.drop_last().len() && #[trigger] entries.drop_last()[j].kind
                        is RegularFile && entries.drop_last()[j].path == rest[i];
                assert(entries[j].kind is RegularFile && entries[j].path == supported_files_of(
                    entries,
                )[i]);
            } else {
                assert(entries[entries.len() - 1].kind is RegularFile && entries[entries.len()
                    - 1].path == supported_files_of(entries)[i]);
            }
        }
    }
}

/// In-flight traversal state: directories still to visit, images found.
pub struct WalkState {
    pub directories: Vec<String>,
    pub images: Vec<String>,
}

impl WalkState {
    /// Starts a walk at `root`. `root_is_dir` reports what the filesystem
    /// says of the root; a walk fails only if the root is not a directory.
    pub fn new(root: String, root_is_dir: bool) -> (r: Result<WalkState, GalleryError>)
        ensures
            r is Ok <==> root_is_dir,
            r is Ok ==> r->Ok_0.directories@ == seq![root] && r->Ok_0.images@ == Seq::<
                String,
            >::empty(),
            r is Err ==> r->Err_0 == GalleryError::InvalidRoot,
    {
        if root_is_dir {
            let mut directories: Vec<String> = Vec::new();
            directories.push(root);
            Ok(WalkState { directories, images: Vec::new() })
        } else {
            Err(GalleryError::InvalidRoot)
        }
    }

    /// Takes the next directory to visit, if any remain.
    pub fn pop_directory(&mut self) -> (r: Option<String>)
        ensures
            final(self).images@ == old(self).images@,
            match r {
                Some(d) => old(self).directories@.len() > 0 && d == old(self).directories@.last()
                    && final(self).directories@ == old(self).directories@.drop_last(),
                None => old(self).directories@.len() == 0 && final(self).directories@ == old(
                    self,
                ).directories@,
            },
    {
        self.directories.pop()
    }

    /// Absorbs one directory's listing: directories join the work list,
    /// supported regular files join the images, everything else is ignored.
    pub fn absorb_entries(&mut self, entries: Vec<DirEntry>)
        ensures
            final(self).directories@ == old(self).directories@ + dirs_of(entries@),
            final(self).images@ == old(self).images@ + supported_files_of(entries@),
    {
        let n = entries.len();
        let mut i: usize = 0;
        proof {
            assert(entries@.subrange(0, 0) =~= Seq::<DirEntry>::empty());
            assert(old(self).directories@ + dirs_of(entries@.subrange(0, 0)) =~= old(
                self,
            ).directories@);
            assert(old(self).images@ + supported_files_of(entries@.subrange(0, 0)) =~= old(
                self,
            ).images@);
        }
        while i < n
            invariant
                n == entries@.len(),
                i <= n,
                self.directories@ == old(self).directories@ + dirs_of(
                    entries@.subrange(0, i as int),
                ),
                self.images@ == old(self).images@ + supported_files_of(
                    entries@.subrange(0, i as int),
                ),
            decreases n - i,
        {
            proof {
                let pre = entries@.subrange(0, i as int);
                let cur = entries@.subrange(0, i + 1);
                assert(cur.drop_last() =~= pre);
                assert(cur.last() == entries@[i as int]);
            }
            let entry = &entries[i];
            match entry.kind {
                EntryKind::Directory => {
                    self.directories.push(entry.path.clone());
                },
                EntryKind::RegularFile => {
                    if is_supported_image(entry.path.as_str()) {
                        self.images.push(entry.path.clone());
                    }
                },
                EntryKind::Other => {},
            }
            proof {
                let cur = entries@.subrange(0, i + 1);
                assert(self.directories@ =~= old(self).directories@ + dirs_of(cur));
                assert(self.images@ =~= old(self).images@ + supported_files_of(cur));
            }
            i += 1;
        }
        proof {
            assert(entries@.subrange(0, n as int) =~= entries@);
        }
    }

    /// True once no directories remain to visit.
    pub fn is_done(&self) -> (r: bool)
        ensures
            r == (self.directories@.len() == 0),
    {
        self.directories.len() == 0
    }

    /// Hands the collected image paths over, sorted by path.
    pub fn into_sorted_images(self) -> (r: Vec<String>)
        ensures
            sorted_paths(r@),
            r@.to_multiset() == self.images@.to_multiset(),
    {
        sort_paths(self.images)
    }
}

/// Lexicographic order on paths by Unicode code point — the order the final
/// item list is sorted in.
pub open spec fn lex_le(a: Seq<char>, b: Seq<char>) -> bool
    decreases a.len(),
{
    if a.len() == 0 {
        true
    } else if b.len() == 0 {
        false
    } else if a[0] == b[0] {
        lex_le(a.drop_first(), b.drop_first())
    } else {
        (a[0] as u32) < (b[0] as u32)
    }
}

/// A path list in nondecreasing lexicographic order.
pub open spec fn sorted_paths(s: Seq<String>) -> bool {
    forall|i: int, j: int| 0 <= i < j < s.len() ==> lex_le(s[i]@, s[j]@)
}

pub proof fn lemma_lex_le_refl(a: Seq<char>)
    ensures
        lex_le(a, a),
    decreases a.len(),
{
    if a.len() > 0 {
        lemma_lex_le_refl(a.drop_first());
    }
}

pub proof fn lemma_lex_le_total(a: Seq<char>, b: Seq<char>)
    ensures
        lex_le(a, b) || lex_le(b, a),
    decreases a.len(),
{
    if a.len() > 0 && b.len() > 0 {
        if a[0] == b[0] {
            lemma_lex_le_total(a.drop_first(), b.drop_first());
        } else {
            assert((a[0] as u32) != (b[0] as u32)) by {
                vstd::utf8::char_u32_cast(a[0], a[0] as u32);
                vstd::utf8::char_u32_cast(b[0], b[0] as u32);
            }
        }
    }
}

pub proof fn lemma_lex_le_trans(a: Seq<char>, b: Seq<char>, c: Seq<char>)
    requires
        lex_le(a, b),
        lex_le(b, c),
    ensures
        lex_le(a, c),
    decreases a.len(),
{
    if a.len() > 0 && b.len() > 0 && c.len() > 0 && a[0] == b[0] && b[0] == c[0] {
        lemma_lex_le_trans(a.drop_first(), b.drop_first(), c.drop_first());
    }
}

/// Compares two paths in the order of `lex_le`.
fn str_le(a: &str, b: &str) -> (r: bool)
    ensures
        r == lex_le(a@, b@),
{
    let na = a.unicode_len();
    let nb = b.unicode_len();
    let mut i: usize = 0;
    proof {
        assert(a@.skip(0) =~= a@);
        assert(b@.skip(0) =~= b@);
    }
    loop
        invariant
            na == a@.len(),
            nb == b@.len(),
            i <= na,
            i <= nb,
            lex_le(a@, b@) == lex_le(a@.skip(i as int), b@.skip(i as int)),
        decreases na - i,
    {
        if i == na {
            assert(a@.skip(i as int).len() == 0);
            return true;
        }
        if i == nb {
            assert(b@.skip(i as int).len() == 0 && a@.skip(i as int).len() > 0);
            return false;
        }
        let ca = a.get_char(i);
        let cb = b.get_char(i);
        assert(a@.skip(i as int)[0] == a@[i as int] && b@.skip(i as int)[0] == b@[i as int]);
        if ca != cb {
            return (ca as u32) < (cb as u32);
        }
        proof {
            assert(a@.skip(i as int).drop_first() =~= a@.skip(i + 1));
            assert(b@.skip(i as int).drop_first() =~= b@.skip(i + 1));
        }
        i += 1;
    }
}

/// Selection sort over the collected paths. Small next to the decode work a
/// scan does per item, and the order it establishes is the scan's public
/// ordering guarantee.
fn sort_paths(v: Vec<String>) -> (r: Vec<String>)
    ensures
        sorted_paths(r@),
        r@.to_multiset() == v@.to_multiset(),
{
    broadcast use vstd::multiset::group_multiset_axioms;

    let mut rest = v;
    let mut out: Vec<String> = Vec::new();
    proof {
        out@.to_multiset_ensures();
        assert forall|a: String| out@.to_multiset().count(a) == 0 by {
            assert(!out@.contains(a));
        }
        assert(out@.to_multiset() =~= Multiset::<String>::empty());
        assert(out@.to_multiset().add(rest@.to_multiset()) =~= rest@.to_multiset());
    }
    while rest.len() > 0
        invariant
            sorted_paths(out@),
            out@.to_multiset().add(rest@.to_multiset()) == v@.to_multiset(),
            forall|i: int, j: int|
                0 <= i < out@.len() && 0 <= j < rest@.len() ==> lex_le(out@[i]@, rest@[j]@),
        decreases rest@.len(),
    {
        let mut m: usize = 0;
        let mut k: usize = 1;
        proof {
            lemma_lex_le_refl(rest@[0]@);
        }
        while k < rest.len()
            invariant
                m < k <= rest@.len(),
                rest@.len() > 0,
                forall|t: int| 0 <= t < k ==> lex_le(rest@[m as int]@, #[trigger] rest@[t]@),
            decreases rest@.len() - k,
        {
            if str_le(rest[k].as_str(), rest[m].as_str()) {
                proof {
                    lemma_lex_le_refl(rest@[k as int]@);
                    assert forall|t: int| 0 <= t < k implies lex_le(
                        rest@[k as int]@,
                        #[trigger] rest@[t]@,
                    ) by {
                        lemma_lex_le_trans(rest@[k as int]@, rest@[m as int]@, rest@[t]@);
                    }
                }
                m = k;
            } else {
                proof {
                    lemma_lex_le_total(rest@[k as int]@, rest@[m as int]@);
                }
            }
            k += 1;
        }
        let ghost old_out = out@;
        let ghost old_rest = rest@;
        let x = rest.remove(m);
        out.push(x);
        proof {
            old_rest.to_multiset_ensures();
            old_out.to_multiset_ensures();
            assert(rest@.to_multiset() == old_rest.to_multiset().remove(old_rest[m as int]));
            assert(out@.to_multiset() == old_out.to_multiset().insert(old_rest[m as int]));
            assert(old_rest.to_multiset().count(old_rest[m as int]) > 0) by {
                assert(old_rest.contains(old_rest[m as int]));
            }
            assert(out@.to_multiset().add(rest@.to_multiset()) =~= v@.to_multiset());
            assert forall|i: int, j: int|
                0 <= i < out@.len() && 0 <= j < rest@.len() implies lex_le(
                out@[i]@,
                rest@[j]@,
            ) by {
                if j < m {
                    assert(rest@[j] == old_rest[j]);
                } else {
                    assert(rest@[j] == old_rest[j + 1]);
                }
                if i < old_out.len() {
                    assert(out@[i] == old_out[i]);
                } else {
                    assert(out@[i] == old_rest[m as int]);
                }
            }
            assert forall|i: int, j: int| 0 <= i < j < out@.len() implies lex_le(
                out@[i]@,
                out@[j]@,
            ) by {
                if j < old_out.len() {
                    assert(out@[i] == old_out[i] && out@[j] == old_out[j]);
                } else {
                    assert(out@[j] == old_rest[m as int]);
                }
            }
        }
    }
    proof {
        rest@.to_multiset_ensures();
        assert forall|a: String| rest@.to_multiset().count(a) == 0 by {
            assert(!rest@.contains(a));
        }
        assert(rest@.to_multiset() =~= Multiset::<String>::empty());
        assert(out@.to_multiset() =~= v@.to_multiset());
    }
    out
}

} // verus!
