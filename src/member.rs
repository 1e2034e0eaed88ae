//! Sorting an archive entry into its bucket and member kind.

use vstd::prelude::*;

use crate::hex::{bucket_id_of, has_bucket_prefix, parse_bucket_id};

verus! {

/// What an entry of a bucket holds.
#[derive(Clone, Copy, Debug, PartialEq, Eq, Structural)]
pub enum MemberKind {
    /// `/asset`: the content itself.
    Asset,
    /// `/asset.meta`: the companion metadata document.
    AssetMeta,
    /// `/pathname`: the real relative path of the bucket's content.
    Pathname,
    /// `/preview.png` or the bucket's own directory `/`: produces nothing.
    Ignored,
}

/// Why an archive cannot be unpacked.
#[derive(Clone, Copy, Debug, PartialEq, Eq, Structural)]
pub enum UnpackError {
    /// The first 32 characters of an entry path are not hexadecimal digits.
    MalformedIdentifier,
    /// The part of an entry path after the identifier names no known member.
    UnrecognizedMember,
    /// A `pathname` member does not hold UTF-8 text.
    PathnameNotText,
}

pub open spec fn asset_suffix() -> Seq<char> {
    seq!['/', 'a', 's', 's', 'e', 't']
}

pub open spec fn meta_suffix() -> Seq<char> {
    seq!['/', 'a', 's', 's', 'e', 't', '.', 'm', 'e', 't', 'a']
}

pub open spec fn pathname_suffix() -> Seq<char> {
    seq!['/', 'p', 'a', 't', 'h', 'n', 'a', 'm', 'e']
}

pub open spec fn preview_suffix() -> Seq<char> {
    seq!['/', 'p', 'r', 'e', 'v', 'i', 'e', 'w', '.', 'p', 'n', 'g']
}

pub open spec fn dir_suffix() -> Seq<char> {
    seq!['/']
}

/// The member kind that the rest of an entry path names, if any.
pub open spec fn kind_of_suffix(s: Seq<char>) -> Option<MemberKind> {
    if s == asset_suffix() {
        Some(MemberKind::Asset)
    } else if s == meta_suffix() {
        Some(MemberKind::AssetMeta)
    } else if s == pathname_suffix() {
        Some(MemberKind::Pathname)
    } else if s == preview_suffix() || s == dir_suffix() {
        Some(MemberKind::Ignored)
    } else {
        None
    }
}

/// How an entry path is read: its bucket identifier and member kind.
pub open spec fn classify_spec(path: Seq<char>) -> Result<(u128, MemberKind), UnpackError> {
    if !has_bucket_prefix(path) {
        Err(UnpackError::MalformedIdentifier)
    } else {
        match kind_of_suffix(path.skip(32)) {
            Some(k) => Ok((bucket_id_of(path) as u128, k)),
            None => Err(UnpackError::UnrecognizedMember),
        }
    }
}

/// Whether the characters of `a` from `start` on are exactly those of `b`.
fn tail_equals(a: &str, start: usize, b: &str) -> (r: bool)
    requires
        start <= a@.len(),
    ensures
        r == (a@.skip(start as int) == b@),
{
    let n = a.unicode_len();
    let m = b.unicode_len();
    if n - start != m {
        assert(a@.skip(start as int).len() != b@.len());
        return false;
    }
    let mut i: usize = 0;
    while i < m
        invariant
            n == a@.len(),
            m == b@.len(),
            n - start == m,
            start <= n,
            i <= m,
            forall|j: int| 0 <= j < i ==> a@[start + j] == b@[j],
        decreases m - i,
    {
        if a.get_char(start + i) != b.get_char(i) {
            assert(a@.skip(start as int)[i as int] != b@[i as int]);
            return false;
        }
        i = i + 1;
    }
    assert(a@.skip(start as int) =~= b@);
    true
}

/// Reads an entry path: its bucket identifier and the member it names.
pub fn classify(path: &str) -> (r: Result<(u128, MemberKind), UnpackError>)
    ensures
        match r {
            Ok((id, k)) => classify_spec(path@) == Ok::<(u128, MemberKind), UnpackError>((id, k)),
            Err(e) => classify_spec(path@) == Err::<(u128, MemberKind), UnpackError>(e),
        },
{
    let id = match parse_bucket_id(path) {
        Some(id) => id,
        None => return Err(UnpackError::MalformedIdentifier),
    };
    let asset = "/asset";
    let meta = "/asset.meta";
    let pathname = "/pathname";
    let preview = "/preview.png";
    let dir = "/";
    proof {
        reveal_strlit("/asset");
        reveal_strlit("/asset.meta");
        reveal_strlit("/pathname");
        reveal_strlit("/preview.png");
        reveal_strlit("/");
        assert(asset@ =~= asset_suffix());
        assert(meta@ =~= meta_suffix());
        assert(pathname@ =~= pathname_suffix());
        assert(preview@ =~= preview_suffix());
        assert(dir@ =~= dir_suffix());
    }
    let k = if tail_equals(path, 32, asset) {
        MemberKind::Asset
    } else if tail_equals(path, 32, meta) {
        MemberKind::AssetMeta
    } else if tail_equals(path, 32, pathname) {
        MemberKind::Pathname
    } else if tail_equals(path, 32, preview) || tail_equals(path, 32, dir) {
        MemberKind::Ignored
    } else {
        return Err(UnpackError::UnrecognizedMember);
    };
    Ok((id, k))
}

} // verus!
