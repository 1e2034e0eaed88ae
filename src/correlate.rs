//! The bucket correlator: remembers the full path of each bucket whose
//! `pathname` member has been read, and decides per entry where its content
//! goes and which placeholder files to move.

use std::collections::HashMap;
use vstd::prelude::*;

use crate::hex::{placeholder, placeholder_name};
use crate::member::{classify, classify_spec, MemberKind, UnpackError};

verus! {

broadcast use vstd::std_specs::hash::group_hash_axioms;

/// `p` with the literal suffix `.meta`.
pub open spec fn meta_path(p: Seq<char>) -> Seq<char> {
    p + seq!['.', 'm', 'e', 't', 'a']
}

/// Where the content of a bucket's `asset` (or, with `meta`, `asset.meta`)
/// member is written: below its full path once that is known, else below
/// its placeholder name.
pub open spec fn content_target(names: Map<u128, Seq<char>>, id: u128, meta: bool) -> Seq<char> {
    let base = if names.contains_key(id) {
        names[id]
    } else {
        placeholder(id as nat)
    };
    if meta {
        meta_path(base)
    } else {
        base
    }
}

/// What is to be done with one entry.
#[derive(Debug)]
pub enum Action {
    /// Copy the entry's content to this path.
    Write(String),
    /// Read the entry as the full path of this bucket, then call `resolve`.
    ReadPathname(u128),
    /// Nothing.
    Skip,
}

/// A best-effort move of a placeholder file: absence of `from` is no error.
#[derive(Debug)]
pub struct Rename {
    pub from: String,
    pub to: String,
}

impl Rename {
    pub open spec fn view(&self) -> (Seq<char>, Seq<char>) {
        (self.from@, self.to@)
    }
}

/// The two placeholder moves that the full path `full` of bucket `id` asks for.
pub open spec fn renames_for(id: u128, full: Seq<char>) -> Seq<(Seq<char>, Seq<char>)> {
    seq![
        (placeholder(id as nat), full),
        (meta_path(placeholder(id as nat)), meta_path(full)),
    ]
}

/// The action that the entry at `path` asks for, given the paths known so far.
pub open spec fn action_spec(names: Map<u128, Seq<char>>, path: Seq<char>, a: Action) -> bool {
    match classify_spec(path) {
        Ok((id, MemberKind::Asset)) => a matches Action::Write(t) && t@ == content_target(names, id, false),
        Ok((id, MemberKind::AssetMeta)) => a matches Action::Write(t) && t@ == content_target(names, id, true),
        Ok((id, MemberKind::Pathname)) => a == Action::ReadPathname(id),
        Ok((_, MemberKind::Ignored)) => a == Action::Skip,
        Err(_) => false,
    }
}

fn with_meta(p: &str) -> (r: String)
    ensures
        r@ == meta_path(p@),
{
    let suffix = ".meta";
    proof {
        reveal_strlit(".meta");
        assert(suffix@ =~= seq!['.', 'm', 'e', 't', 'a']);
    }
    String::from_str(p).concat(suffix)
}

/// The mapping from bucket identifier to full path, built up over one pass.
pub struct Correlator {
    names: HashMap<u128, String>,
}

impl Correlator {
    pub closed spec fn view(&self) -> Map<u128, Seq<char>> {
        Map::new(|k: u128| self.names@.contains_key(k), |k: u128| self.names@[k]@)
    }

    pub fn new() -> (r: Self)
        ensures
            r@ == Map::<u128, Seq<char>>::empty(),
    {
        let r = Correlator { names: HashMap::new() };
        assert(r@ =~= Map::<u128, Seq<char>>::empty());
        r
    }

    /// The full path recorded for bucket `id`, if any.
    pub fn lookup(&self, id: u128) -> (r: Option<&String>)
        ensures
            r.is_some() == self@.contains_key(id),
            r.is_some() ==> r.unwrap()@ == self@[id],
    {
        self.names.get(&id)
    }

    /// Where the content of bucket `id` is written (with `meta`, its metadata).
    pub fn target(&self, id: u128, meta: bool) -> (r: String)
        ensures
            r@ == content_target(self@, id, meta),
    {
        let base = match self.names.get(&id) {
            Some(p) => p.clone(),
            None => placeholder_name(id),
        };
        if meta {
            with_meta(base.as_str())
        } else {
            base
        }
    }

    /// Decides what the entry at `path` asks for.
    pub fn plan(&self, path: &str) -> (r: Result<Action, UnpackError>)
        ensures
            match r {
                Ok(a) => action_spec(self@, path@, a),
                Err(e) => classify_spec(path@) == Err::<(u128, MemberKind), UnpackError>(e),
            },
    {
        match classify(path) {
            Err(e) => Err(e),
            Ok((id, MemberKind::Asset)) => Ok(Action::Write(self.target(id, false))),
            Ok((id, MemberKind::AssetMeta)) => Ok(Action::Write(self.target(id, true))),
            Ok((id, MemberKind::Pathname)) => Ok(Action::ReadPathname(id)),
            Ok((_, MemberKind::Ignored)) => Ok(Action::Skip),
        }
    }

    /// Records `full` as the path of bucket `id` and returns the moves that
    /// bring its placeholder files, where they exist, to their final names.
    pub fn resolve(&mut self, id: u128, full: String) -> (r: Vec<Rename>)
        ensures
            final(self)@ == old(self)@.insert(id, full@),
            r@.map_values(|m: Rename| m@) == renames_for(id, full@),
    {
        let ph = placeholder_name(id);
        let ph_meta = with_meta(ph.as_str());
        let full_meta = with_meta(full.as_str());
        let mut r: Vec<Rename> = Vec::new();
        r.push(Rename { from: ph, to: full.clone() });
        r.push(Rename { from: ph_meta, to: full_meta });
        self.names.insert(id, full);
        assert(r@.map_values(|m: Rename| m@) =~= renames_for(id, full@));
        assert(self@ =~= old(self)@.insert(id, full@));
        r
    }
}

} // verus!
