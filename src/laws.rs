//! What a pass guarantees, proved over the model of `unpack`.

use vstd::prelude::*;
use vstd::utf8::{decode_utf8, valid_utf8};

use crate::correlate::meta_path;
use crate::hex::{has_bucket_prefix, hex_value, is_hex_digit, lemma_hex_value_bound, placeholder, pow16};
use crate::member::{
    asset_suffix, classify_spec, dir_suffix, meta_suffix, pathname_suffix, preview_suffix,
    MemberKind, UnpackError,
};
use crate::tree::move_file;
use crate::unpack::{run_spec, start, step_spec, unpack_spec, Extraction};

verus! {

/// A bucket's name in the archive: 32 hexadecimal digits.
pub open spec fn is_bucket_key(key: Seq<char>) -> bool {
    key.len() == 32 && forall|i: int| 0 <= i < 32 ==> is_hex_digit(#[trigger] key[i])
}

/// The identifier that a bucket name stands for.
pub open spec fn key_id(key: Seq<char>) -> u128 {
    hex_value(key) as u128
}

/// Entry paths of bucket `key` are read as that bucket and the member that
/// their suffix names.
pub proof fn lemma_classify_member(key: Seq<char>, suffix: Seq<char>, kind: MemberKind)
    requires
        is_bucket_key(key),
        (suffix == asset_suffix() && kind == MemberKind::Asset)
            || (suffix == meta_suffix() && kind == MemberKind::AssetMeta)
            || (suffix == pathname_suffix() && kind == MemberKind::Pathname)
            || ((suffix == preview_suffix() || suffix == dir_suffix()) && kind == MemberKind::Ignored),
    ensures
        classify_spec(key + suffix) == Ok::<(u128, MemberKind), UnpackError>((key_id(key), kind)),
        key_id(key) as nat == hex_value(key),
{
    let path = key + suffix;
    assert(path.take(32) =~= key);
    assert(path.skip(32) =~= suffix);
    assert(has_bucket_prefix(path)) by {
        assert forall|i: int| 0 <= i < 32 implies is_hex_digit(#[trigger] path[i]) by {
            assert(path[i] == key[i]);
        }
    }
    lemma_hex_value_bound(key);
    reveal_with_fuel(pow16, 33);
}

/// A path that the bucket name does not begin, or whose suffix names no known
/// member, stops the pass with the matching error.
pub proof fn lemma_classify_failure(key: Seq<char>, suffix: Seq<char>)
    requires
        is_bucket_key(key),
        suffix != asset_suffix(),
        suffix != meta_suffix(),
        suffix != pathname_suffix(),
        suffix != preview_suffix(),
        suffix != dir_suffix(),
    ensures
        classify_spec(key + suffix) == Err::<(u128, MemberKind), UnpackError>(
            UnpackError::UnrecognizedMember,
        ),
{
    let path = key + suffix;
    assert(path.take(32) =~= key);
    assert(path.skip(32) =~= suffix);
    assert forall|i: int| 0 <= i < 32 implies is_hex_digit(#[trigger] path[i]) by {
        assert(path[i] == key[i]);
    }
}

proof fn lemma_run_two(st: Extraction, a: (Seq<char>, Seq<u8>), b: (Seq<char>, Seq<u8>))
    ensures
        run_spec(st, seq![a, b]) == match step_spec(st, a.0, a.1) {
            Err(e) => Err(e),
            Ok(s1) => step_spec(s1, b.0, b.1),
        },
{
    let es = seq![a, b];
    assert(es.skip(1) =~= seq![b]);
    assert(es.skip(1).skip(1) =~= Seq::<(Seq<char>, Seq<u8>)>::empty());
    reveal_with_fuel(run_spec, 3);
}

/// Content whose `pathname` comes after it ends up at that path, holding
/// exactly its bytes, and no placeholder remains. (When the path is the
/// bucket's own placeholder metadata name, the metadata move of the same
/// `pathname` carries the content on, so that path is left out.)
pub proof fn lemma_asset_then_pathname(key: Seq<char>, content: Seq<u8>, text: Seq<u8>)
    requires
        is_bucket_key(key),
        valid_utf8(text),
        decode_utf8(text) != meta_path(placeholder(hex_value(key))),
    ensures
        unpack_spec(seq![(key + asset_suffix(), content), (key + pathname_suffix(), text)])
            == Ok::<Map<Seq<char>, Seq<u8>>, UnpackError>(map![decode_utf8(text) => content]),
{
    lemma_classify_member(key, asset_suffix(), MemberKind::Asset);
    lemma_classify_member(key, pathname_suffix(), MemberKind::Pathname);
    lemma_run_two(start(), (key + asset_suffix(), content), (key + pathname_suffix(), text));
    let p = decode_utf8(text);
    let ph = placeholder(hex_value(key));
    let f1 = Map::<Seq<char>, Seq<u8>>::empty().insert(ph, content);
    let f2 = move_file(f1, ph, p);
    assert(f2 =~= map![p => content]);
    assert(meta_path(ph).len() != ph.len());
    assert(!f2.contains_key(meta_path(ph)));
}

/// With `pathname` first, the content goes straight to its path: the tree
/// is the same as with the conventional order, and no placeholder is made.
pub proof fn lemma_pathname_then_asset(key: Seq<char>, content: Seq<u8>, text: Seq<u8>)
    requires
        is_bucket_key(key),
        valid_utf8(text),
    ensures
        unpack_spec(seq![(key + pathname_suffix(), text), (key + asset_suffix(), content)])
            == Ok::<Map<Seq<char>, Seq<u8>>, UnpackError>(map![decode_utf8(text) => content]),
{
    lemma_classify_member(key, asset_suffix(), MemberKind::Asset);
    lemma_classify_member(key, pathname_suffix(), MemberKind::Pathname);
    lemma_run_two(start(), (key + pathname_suffix(), text), (key + asset_suffix(), content));
    let p = decode_utf8(text);
    let ph = placeholder(hex_value(key));
    let f0 = Map::<Seq<char>, Seq<u8>>::empty();
    assert(move_file(move_file(f0, ph, p), meta_path(ph), meta_path(p)) == f0);
    assert(f0.insert(p, content) =~= map![p => content]);
}

/// Metadata ends up beside its path with `.meta` appended, in either order,
/// and no file stands at the path itself.
pub proof fn lemma_meta_placement(key: Seq<char>, meta: Seq<u8>, text: Seq<u8>)
    requires
        is_bucket_key(key),
        valid_utf8(text),
    ensures
        unpack_spec(seq![(key + meta_suffix(), meta), (key + pathname_suffix(), text)])
            == Ok::<Map<Seq<char>, Seq<u8>>, UnpackError>(map![meta_path(decode_utf8(text)) => meta]),
        unpack_spec(seq![(key + pathname_suffix(), text), (key + meta_suffix(), meta)])
            == Ok::<Map<Seq<char>, Seq<u8>>, UnpackError>(map![meta_path(decode_utf8(text)) => meta]),
        !map![meta_path(decode_utf8(text)) => meta].contains_key(decode_utf8(text)),
{
    lemma_classify_member(key, meta_suffix(), MemberKind::AssetMeta);
    lemma_classify_member(key, pathname_suffix(), MemberKind::Pathname);
    lemma_run_two(start(), (key + meta_suffix(), meta), (key + pathname_suffix(), text));
    lemma_run_two(start(), (key + pathname_suffix(), text), (key + meta_suffix(), meta));
    let p = decode_utf8(text);
    let ph = placeholder(hex_value(key));
    let f0 = Map::<Seq<char>, Seq<u8>>::empty();
    let f1 = f0.insert(meta_path(ph), meta);
    assert(meta_path(ph).len() != ph.len());
    assert(move_file(f1, ph, p) == f1);
    assert(move_file(f1, meta_path(ph), meta_path(p)) =~= map![meta_path(p) => meta]);
    assert(move_file(move_file(f0, ph, p), meta_path(ph), meta_path(p)) == f0);
    assert(f0.insert(meta_path(p), meta) =~= map![meta_path(p) => meta]);
    assert(meta_path(p).len() != p.len());
}

/// Content whose bucket never gets a `pathname` stays under the placeholder
/// name of its identifier.
pub proof fn lemma_orphan_placeholder(key: Seq<char>, content: Seq<u8>)
    requires
        is_bucket_key(key),
    ensures
        unpack_spec(seq![(key + asset_suffix(), content)]) == Ok::<
            Map<Seq<char>, Seq<u8>>,
            UnpackError,
        >(map![placeholder(hex_value(key)) => content]),
{
    lemma_classify_member(key, asset_suffix(), MemberKind::Asset);
    let es = seq![(key + asset_suffix(), content)];
    assert(es.skip(1) =~= Seq::<(Seq<char>, Seq<u8>)>::empty());
    reveal_with_fuel(run_spec, 2);
    assert(Map::<Seq<char>, Seq<u8>>::empty().insert(placeholder(hex_value(key)), content)
        =~= map![placeholder(hex_value(key)) => content]);
}

/// A preview or a bucket directory entry, wherever it stands, changes nothing:
/// the pass gives what it gives without that entry.
pub proof fn lemma_ignored_entry(st: Extraction, es: Seq<(Seq<char>, Seq<u8>)>, k: int)
    requires
        0 <= k < es.len(),
        classify_spec(es[k].0) matches Ok((_, MemberKind::Ignored)),
    ensures
        run_spec(st, es) == run_spec(st, es.remove(k)),
    decreases k,
{
    if k == 0 {
        assert(es.remove(0) =~= es.skip(1));
    } else {
        assert(es.remove(k)[0] == es[0]);
        assert(es.remove(k).skip(1) =~= es.skip(1).remove(k - 1));
        match step_spec(st, es[0].0, es[0].1) {
            Err(_) => {},
            Ok(next) => {
                lemma_ignored_entry(next, es.skip(1), k - 1);
            },
        }
    }
}

/// An entry whose path has no well-formed identifier, or names no known
/// member, stops the pass with an error: nothing after it is looked at.
pub proof fn lemma_failing_entry_ends_pass(st: Extraction, es: Seq<(Seq<char>, Seq<u8>)>, k: int)
    requires
        0 <= k < es.len(),
        classify_spec(es[k].0) is Err,
    ensures
        run_spec(st, es) is Err,
        run_spec(st, es) == run_spec(st, es.take(k + 1)),
    decreases k,
{
    assert(es.take(k + 1)[0] == es[0]);
    if k > 0 {
        assert(es.take(k + 1).skip(1) =~= es.skip(1).take(k));
        match step_spec(st, es[0].0, es[0].1) {
            Err(_) => {},
            Ok(next) => {
                lemma_failing_entry_ends_pass(next, es.skip(1), k - 1);
            },
        }
    }
}

/// An entry path that does not begin with 32 hexadecimal digits is refused.
pub proof fn lemma_malformed_identifier(path: Seq<char>)
    requires
        !has_bucket_prefix(path),
    ensures
        classify_spec(path) == Err::<(u128, MemberKind), UnpackError>(UnpackError::MalformedIdentifier),
{
}

} // verus!
