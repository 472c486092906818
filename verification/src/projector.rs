//! Pure projection of a raw remote record into a domain [`Entry`].
//!
//! The first declared image reference is split on its final `:` separator:
//! two parts give `(container, version)`; when no separator is present the
//! whole reference is the container and the version defaults to `"latest"`.
//! A record without an image reference projects to nothing.

use vstd::prelude::*;
use crate::object::{Entry, EntryView, RemoteObject, RemoteObjectView};

verus! {

/// The version assigned when an image reference carries no `:` separator.
pub open spec fn default_version() -> Seq<char> {
    "latest"@
}

/// Index of the last `:` in `s`, or `-1` when none occurs.
pub open spec fn last_colon(s: Seq<char>) -> int
    decreases s.len(),
{
    if s.len() == 0 {
        -1
    } else if s[s.len() - 1] == ':' {
        s.len() - 1
    } else {
        last_colon(s.drop_last())
    }
}

/// The container part of an image reference: everything before the last `:`,
/// or the whole reference when no `:` occurs.
pub open spec fn container_of(img: Seq<char>) -> Seq<char> {
    if last_colon(img) >= 0 {
        img.subrange(0, last_colon(img))
    } else {
        img
    }
}

/// The version part of an image reference: everything after the last `:`,
/// or the default version when no `:` occurs.
pub open spec fn version_of(img: Seq<char>) -> Seq<char> {
    if last_colon(img) >= 0 {
        img.subrange(last_colon(img) + 1, img.len() as int)
    } else {
        default_version()
    }
}

/// What projecting a raw record yields: nothing when the image reference is
/// absent, otherwise the entry with the split image reference.
pub open spec fn project_view(o: RemoteObjectView) -> Option<EntryView> {
    match o.image {
        None => None,
        Some(img) => Some(
            EntryView {
                container: container_of(img),
                name: o.name,
                namespace: o.namespace,
                version: version_of(img),
            },
        ),
    }
}

/// `last_colon` lies in range, points at a `:`, and nothing after it is a `:`.
pub proof fn lemma_last_colon(s: Seq<char>)
    ensures
        -1 <= last_colon(s) < s.len(),
        last_colon(s) >= 0 ==> s[last_colon(s)] == ':',
        forall|j: int| last_colon(s) < j < s.len() ==> s[j] != ':',
    decreases s.len(),
{
    if s.len() == 0 {
    } else if s[s.len() - 1] == ':' {
    } else {
        lemma_last_colon(s.drop_last());
        assert forall|j: int| last_colon(s) < j < s.len() implies s[j] != ':' by {
            if j < s.len() - 1 {
                assert(s.drop_last()[j] == s[j]);
            }
        }
    }
}

/// A `:` with no `:` after it is the last one.
pub proof fn lemma_last_colon_at(s: Seq<char>, c: int)
    requires
        0 <= c < s.len(),
        s[c] == ':',
        forall|j: int| c < j < s.len() ==> s[j] != ':',
    ensures
        last_colon(s) == c,
{
    lemma_last_colon(s);
    if last_colon(s) < c {
        assert(s[c] != ':');
    }
    if last_colon(s) > c {
        assert(s[last_colon(s)] != ':');
    }
}

/// A string without any `:` has no last one.
pub proof fn lemma_no_colon(s: Seq<char>)
    requires
        forall|j: int| 0 <= j < s.len() ==> s[j] != ':',
    ensures
        last_colon(s) == -1,
{
    lemma_last_colon(s);
    if last_colon(s) >= 0 {
        assert(s[last_colon(s)] != ':');
    }
}

/// Split an image reference on its final `:` separator.
pub fn split_image(img: &str) -> (r: (String, String))
    ensures
        r.0@ == container_of(img@),
        r.1@ == version_of(img@),
{
    let n = img.unicode_len();
    let mut idx: usize = 0;
    let mut cut: Option<usize> = None;
    while idx < n
        invariant
            idx <= n,
            n == img@.len(),
            match cut {
                Some(c) => c < idx && img@[c as int] == ':' && (forall|j: int|
                    c < j < idx ==> img@[j] != ':'),
                None => forall|j: int| 0 <= j < idx ==> img@[j] != ':',
            },
        decreases n - idx,
    {
        if img.get_char(idx) == ':' {
            cut = Some(idx);
        }
        idx += 1;
    }
    match cut {
        Some(c) => {
            proof {
                lemma_last_colon_at(img@, c as int);
            }
            let container = img.substring_char(0, c).to_owned();
            let version = img.substring_char(c + 1, n).to_owned();
            (container, version)
        },
        None => {
            proof {
                lemma_no_colon(img@);
            }
            let lit: &str = "latest";
            (img.to_owned(), lit.to_owned())
        },
    }
}

/// Project a raw record into a domain entry, or nothing when the record
/// declares no image reference. Pure and side-effect-free: the result is a
/// function of the record's value alone.
pub fn project(obj: &RemoteObject) -> (r: Option<Entry>)
    ensures
        r.deep_view() == project_view(obj@),
{
    match &obj.image {
        None => None,
        Some(img) => {
            let (container, version) = split_image(img.as_str());
            Some(
                Entry {
                    container,
                    name: obj.name.clone(),
                    namespace: obj.namespace.clone(),
                    version,
                },
            )
        },
    }
}

/// Projection is a pure derivation: projecting the same record twice yields
/// the same result.
pub proof fn lemma_projection_idempotent(a: RemoteObjectView, b: RemoteObjectView)
    requires
        a == b,
    ensures
        project_view(a) == project_view(b),
{
}

} // verus!
