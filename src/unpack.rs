//! One pass over an archive's entries: what it produces, as a model over
//! maps, and an executable pass that builds a [`Tree`] from synthetic entries.

use vstd::prelude::*;
use vstd::utf8::{decode_utf8, valid_utf8};

use crate::correlate::{content_target, meta_path, renames_for, Action, Correlator};
use crate::hex::placeholder;
use crate::member::{classify_spec, MemberKind, UnpackError};
use crate::tree::{move_file, Tree};

verus! {

/// One archive entry: its path in the archive and its content.
pub struct Entry {
    pub path: String,
    pub data: Vec<u8>,
}

impl Entry {
    pub open spec fn view(&self) -> (Seq<char>, Seq<u8>) {
        (self.path@, self.data@)
    }
}

/// What a pass has built so far: the known full paths and the files written.
pub struct Extraction {
    pub names: Map<u128, Seq<char>>,
    pub files: Map<Seq<char>, Seq<u8>>,
}

pub open spec fn start() -> Extraction {
    Extraction { names: Map::empty(), files: Map::empty() }
}

/// The effect of one entry with path `path` and content `data`.
pub open spec fn step_spec(st: Extraction, path: Seq<char>, data: Seq<u8>) -> Result<
    Extraction,
    UnpackError,
> {
    match classify_spec(path) {
        Err(e) => Err(e),
        Ok((id, MemberKind::Asset)) => Ok(
            Extraction { names: st.names, files: st.files.insert(content_target(st.names, id, false), data) },
        ),
        Ok((id, MemberKind::AssetMeta)) => Ok(
            Extraction { names: st.names, files: st.files.insert(content_target(st.names, id, true), data) },
        ),
        Ok((id, MemberKind::Pathname)) => if valid_utf8(data) {
            let p = decode_utf8(data);
            let ph = placeholder(id as nat);
            Ok(
                Extraction {
                    names: st.names.insert(id, p),
                    files: move_file(move_file(st.files, ph, p), meta_path(ph), meta_path(p)),
                },
            )
        } else {
            Err(UnpackError::PathnameNotText)
        },
        Ok((_, MemberKind::Ignored)) => Ok(st),
    }
}

/// The effect of the entries `es`, in order, starting from `st`; the first
/// failing entry ends the pass.
pub open spec fn run_spec(st: Extraction, es: Seq<(Seq<char>, Seq<u8>)>) -> Result<
    Extraction,
    UnpackError,
>
    decreases es.len(),
{
    if es.len() == 0 {
        Ok(st)
    } else {
        match step_spec(st, es[0].0, es[0].1) {
            Err(e) => Err(e),
            Ok(next) => run_spec(next, es.skip(1)),
        }
    }
}

/// The files that unpacking `es` produces, or the error that stops it.
pub open spec fn unpack_spec(es: Seq<(Seq<char>, Seq<u8>)>) -> Result<
    Map<Seq<char>, Seq<u8>>,
    UnpackError,
> {
    match run_spec(start(), es) {
        Ok(st) => Ok(st.files),
        Err(e) => Err(e),
    }
}

pub open spec fn entries_view(entries: Seq<Entry>) -> Seq<(Seq<char>, Seq<u8>)> {
    entries.map_values(|e: Entry| e@)
}

/// Relies on `String::from_utf8`: it succeeds exactly on valid UTF-8 and then
/// holds the text that the bytes encode.
#[verifier::external_body]
fn utf8_text(bytes: Vec<u8>) -> (r: Option<String>)
    ensures
        r.is_some() == valid_utf8(bytes@),
        r.is_some() ==> r.unwrap()@ == decode_utf8(bytes@),
{
    String::from_utf8(bytes).ok()
}

fn copy_bytes(v: &Vec<u8>) -> (r: Vec<u8>)
    ensures
        r@ == v@,
{
    let mut r: Vec<u8> = Vec::new();
    let mut i: usize = 0;
    while i < v.len()
        invariant
            i <= v@.len(),
            r@ == v@.take(i as int),
        decreases v@.len() - i,
    {
        r.push(v[i]);
        i = i + 1;
        assert(r@ =~= v@.take(i as int));
    }
    assert(v@.take(v@.len() as int) =~= v@);
    r
}

/// Unpacks a sequence of entries, in order, into a tree of files: each
/// `asset` and `asset.meta` is written under its bucket's full path when that
/// is known, else under the placeholder name, and each `pathname` moves the
/// placeholder files of its bucket to their final names.
pub fn unpack_entries(entries: &Vec<Entry>) -> (r: Result<Tree, UnpackError>)
    ensures
        match r {
            Ok(t) => t.wf() && unpack_spec(entries_view(entries@)) == Ok::<
                Map<Seq<char>, Seq<u8>>,
                UnpackError,
            >(t@),
            Err(e) => unpack_spec(entries_view(entries@)) == Err::<
                Map<Seq<char>, Seq<u8>>,
                UnpackError,
            >(e),
        },
{
    let ghost es = entries_view(entries@);
    let mut corr = Correlator::new();
    let mut tree = Tree::new();
    let mut i: usize = 0;
    assert(es.skip(0) =~= es);
    while i < entries.len()
        invariant
            es == entries_view(entries@),
            i <= entries@.len(),
            tree.wf(),
            run_spec(start(), es) == run_spec(
                Extraction { names: corr@, files: tree@ },
                es.skip(i as int),
            ),
        decreases entries@.len() - i,
    {
        let ghost cur = Extraction { names: corr@, files: tree@ };
        let ghost rest = es.skip(i as int);
        assert(rest[0] == entries@[i as int]@);
        assert(rest.skip(1) =~= es.skip(i + 1));
        let e = &entries[i];
        match corr.plan(e.path.as_str()) {
            Err(err) => {
                return Err(err);
            },
            Ok(Action::Write(t)) => {
                tree.write(t, copy_bytes(&e.data));
            },
            Ok(Action::ReadPathname(id)) => {
                match utf8_text(copy_bytes(&e.data)) {
                    None => {
                        return Err(UnpackError::PathnameNotText);
                    },
                    Some(p) => {
                        let ghost pv = p@;
                        let moves = corr.resolve(id, p);
                        assert(renames_for(id, pv).len() == 2);
                        assert(moves@.len() == moves@.map_values(|m: crate::correlate::Rename| m@).len());
                        assert(moves@.map_values(|m: crate::correlate::Rename| m@)[0] == moves@[0]@);
                        assert(moves@.map_values(|m: crate::correlate::Rename| m@)[1] == moves@[1]@);
                        tree.rename(&moves[0].from, moves[0].to.clone());
                        tree.rename(&moves[1].from, moves[1].to.clone());
                    },
                }
            },
            Ok(Action::Skip) => {},
        }
        i = i + 1;
    }
    assert(es.skip(i as int).len() == 0);
    Ok(tree)
}

} // verus!
