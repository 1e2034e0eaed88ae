use unipack::correlate::{Action, Correlator};
use unipack::hex::{hex_digit, parse_bucket_id, placeholder_name};
use unipack::member::{classify, MemberKind, UnpackError};
use unipack::tree::Tree;
use unipack::unpack::{unpack_entries, Entry};

const KEY: &str = "0000000000000000000000000000abcd";
const WIDE_KEY: &str = "0123456789ABCDEF0123456789abcdef";

fn entry(path: &str, data: &[u8]) -> Entry {
    Entry { path: path.to_string(), data: data.to_vec() }
}

fn member(key: &str, suffix: &str, data: &[u8]) -> Entry {
    entry(&format!("{key}{suffix}"), data)
}

fn file(tree: &Tree, path: &str) -> Option<Vec<u8>> {
    tree.get(&path.to_string()).cloned()
}

fn sorted_paths(tree: &Tree) -> Vec<String> {
    let mut p = tree.paths();
    p.sort();
    p
}

#[test]
fn hex_digits_of_both_cases() {
    assert_eq!(hex_digit('0'), Some(0));
    assert_eq!(hex_digit('9'), Some(9));
    assert_eq!(hex_digit('a'), Some(10));
    assert_eq!(hex_digit('F'), Some(15));
    assert_eq!(hex_digit('g'), None);
    assert_eq!(hex_digit('+'), None);
}

#[test]
fn bucket_id_from_prefix() {
    assert_eq!(parse_bucket_id(KEY), Some(0xabcd));
    assert_eq!(parse_bucket_id(&format!("{KEY}/asset")), Some(0xabcd));
    assert_eq!(
        parse_bucket_id(WIDE_KEY),
        Some(0x0123456789abcdef0123456789abcdef)
    );
    assert_eq!(
        parse_bucket_id("ffffffffffffffffffffffffffffffff"),
        Some(u128::MAX)
    );
}

#[test]
fn bucket_id_refused() {
    assert_eq!(parse_bucket_id(""), None);
    assert_eq!(parse_bucket_id("0000000000000000000000000000abc"), None);
    assert_eq!(parse_bucket_id("0000000000000000000000000000abcg/asset"), None);
    assert_eq!(parse_bucket_id("+000000000000000000000000000abcd/asset"), None);
    assert_eq!(parse_bucket_id("é000000000000000000000000000abcd/asset"), None);
}

#[test]
fn placeholder_is_padded_lower_hex() {
    assert_eq!(placeholder_name(0), "0000000000000000");
    assert_eq!(placeholder_name(0xabcd), "000000000000abcd");
    assert_eq!(placeholder_name(0xfedcba9876543210), "fedcba9876543210");
    assert_eq!(
        placeholder_name(0x0123456789abcdef0123456789abcdef),
        "123456789abcdef0123456789abcdef"
    );
}

#[test]
fn classify_members() {
    assert_eq!(classify(&format!("{KEY}/asset")), Ok((0xabcd, MemberKind::Asset)));
    assert_eq!(classify(&format!("{KEY}/asset.meta")), Ok((0xabcd, MemberKind::AssetMeta)));
    assert_eq!(classify(&format!("{KEY}/pathname")), Ok((0xabcd, MemberKind::Pathname)));
    assert_eq!(classify(&format!("{KEY}/preview.png")), Ok((0xabcd, MemberKind::Ignored)));
    assert_eq!(classify(&format!("{KEY}/")), Ok((0xabcd, MemberKind::Ignored)));
    assert_eq!(classify(&format!("{KEY}/unknown-thing")), Err(UnpackError::UnrecognizedMember));
    assert_eq!(classify(KEY), Err(UnpackError::UnrecognizedMember));
    assert_eq!(classify(&format!("{KEY}/asset/")), Err(UnpackError::UnrecognizedMember));
    assert_eq!(classify("not-hex-at-all-not-hex-at-all-xx/asset"), Err(UnpackError::MalformedIdentifier));
}

#[test]
fn correlator_plans_and_resolves() {
    let mut c = Correlator::new();
    match c.plan(&format!("{KEY}/asset")).unwrap() {
        Action::Write(t) => assert_eq!(t, "000000000000abcd"),
        other => panic!("unexpected {other:?}"),
    }
    match c.plan(&format!("{KEY}/asset.meta")).unwrap() {
        Action::Write(t) => assert_eq!(t, "000000000000abcd.meta"),
        other => panic!("unexpected {other:?}"),
    }
    assert!(matches!(c.plan(&format!("{KEY}/pathname")).unwrap(), Action::ReadPathname(0xabcd)));
    assert!(matches!(c.plan(&format!("{KEY}/preview.png")).unwrap(), Action::Skip));
    assert!(c.lookup(0xabcd).is_none());

    let moves = c.resolve(0xabcd, "Models/Rock.fbx".to_string());
    assert_eq!(moves.len(), 2);
    assert_eq!(moves[0].from, "000000000000abcd");
    assert_eq!(moves[0].to, "Models/Rock.fbx");
    assert_eq!(moves[1].from, "000000000000abcd.meta");
    assert_eq!(moves[1].to, "Models/Rock.fbx.meta");
    assert_eq!(c.lookup(0xabcd).map(|s| s.as_str()), Some("Models/Rock.fbx"));

    match c.plan(&format!("{KEY}/asset.meta")).unwrap() {
        Action::Write(t) => assert_eq!(t, "Models/Rock.fbx.meta"),
        other => panic!("unexpected {other:?}"),
    }
    assert_eq!(c.target(0xabcd, false), "Models/Rock.fbx");
    assert_eq!(c.target(0x1, true), "0000000000000001.meta");
}

#[test]
fn tree_write_and_rename() {
    let mut t = Tree::new();
    t.write("a".to_string(), vec![1]);
    t.write("b".to_string(), vec![2]);
    t.write("a".to_string(), vec![3]);
    assert_eq!(t.len(), 2);
    assert_eq!(file(&t, "a"), Some(vec![3]));
    assert!(t.rename(&"a".to_string(), "b".to_string()));
    assert_eq!(t.len(), 1);
    assert_eq!(file(&t, "b"), Some(vec![3]));
    assert_eq!(file(&t, "a"), None);
    assert!(!t.rename(&"missing".to_string(), "c".to_string()));
    assert_eq!(sorted_paths(&t), vec!["b".to_string()]);
}

#[test]
fn pathname_after_asset() {
    let t = unpack_entries(&vec![
        member(KEY, "/asset", b"BODY"),
        member(KEY, "/pathname", b"a/b.txt"),
    ])
    .unwrap();
    assert_eq!(sorted_paths(&t), vec!["a/b.txt".to_string()]);
    assert_eq!(file(&t, "a/b.txt"), Some(b"BODY".to_vec()));
}

#[test]
fn pathname_before_asset() {
    let t = unpack_entries(&vec![
        member(KEY, "/pathname", b"a/b.txt"),
        member(KEY, "/asset", b"BODY"),
    ])
    .unwrap();
    assert_eq!(sorted_paths(&t), vec!["a/b.txt".to_string()]);
    assert_eq!(file(&t, "a/b.txt"), Some(b"BODY".to_vec()));
}

#[test]
fn meta_gets_suffix_in_either_order() {
    let first = unpack_entries(&vec![
        member(KEY, "/asset.meta", b"META"),
        member(KEY, "/pathname", b"x/y.mat"),
    ])
    .unwrap();
    let second = unpack_entries(&vec![
        member(KEY, "/pathname", b"x/y.mat"),
        member(KEY, "/asset.meta", b"META"),
    ])
    .unwrap();
    for t in [&first, &second] {
        assert_eq!(sorted_paths(t), vec!["x/y.mat.meta".to_string()]);
        assert_eq!(file(t, "x/y.mat.meta"), Some(b"META".to_vec()));
        assert_eq!(file(t, "x/y.mat"), None);
    }
}

#[test]
fn full_bucket_with_meta() {
    let t = unpack_entries(&vec![
        member(WIDE_KEY, "/", b""),
        member(WIDE_KEY, "/asset", b"MESH"),
        member(WIDE_KEY, "/asset.meta", b"guid: 1"),
        member(WIDE_KEY, "/preview.png", b"PNG"),
        member(WIDE_KEY, "/pathname", b"Models/Rock.fbx"),
    ])
    .unwrap();
    assert_eq!(
        sorted_paths(&t),
        vec!["Models/Rock.fbx".to_string(), "Models/Rock.fbx.meta".to_string()]
    );
    assert_eq!(file(&t, "Models/Rock.fbx"), Some(b"MESH".to_vec()));
    assert_eq!(file(&t, "Models/Rock.fbx.meta"), Some(b"guid: 1".to_vec()));
}

#[test]
fn orphan_asset_keeps_placeholder() {
    let t = unpack_entries(&vec![member(KEY, "/asset", b"C")]).unwrap();
    assert_eq!(sorted_paths(&t), vec!["000000000000abcd".to_string()]);
    assert_eq!(file(&t, "000000000000abcd"), Some(b"C".to_vec()));
}

#[test]
fn orphan_meta_keeps_placeholder() {
    let t = unpack_entries(&vec![member(KEY, "/asset.meta", b"M")]).unwrap();
    assert_eq!(sorted_paths(&t), vec!["000000000000abcd.meta".to_string()]);
}

#[test]
fn preview_and_directory_are_ignored() {
    let t = unpack_entries(&vec![
        member(KEY, "/", b""),
        member(KEY, "/preview.png", b"\x89PNG"),
        member(KEY, "/asset", b"BODY"),
        member(KEY, "/pathname", b"a/b.txt"),
    ])
    .unwrap();
    assert_eq!(sorted_paths(&t), vec!["a/b.txt".to_string()]);
    assert_eq!(file(&t, "a/b.txt"), Some(b"BODY".to_vec()));
}

#[test]
fn two_buckets_do_not_mix() {
    let t = unpack_entries(&vec![
        member(KEY, "/asset", b"ONE"),
        member(WIDE_KEY, "/asset", b"TWO"),
        member(WIDE_KEY, "/pathname", b"two.txt"),
        member(KEY, "/pathname", b"dir/one.txt"),
    ])
    .unwrap();
    assert_eq!(sorted_paths(&t), vec!["dir/one.txt".to_string(), "two.txt".to_string()]);
    assert_eq!(file(&t, "dir/one.txt"), Some(b"ONE".to_vec()));
    assert_eq!(file(&t, "two.txt"), Some(b"TWO".to_vec()));
}

#[test]
fn unknown_suffix_stops_the_pass() {
    let r = unpack_entries(&vec![
        member(KEY, "/asset", b"BODY"),
        member(KEY, "/unknown-thing", b""),
        member(KEY, "/fine", b""),
    ]);
    assert!(matches!(r, Err(UnpackError::UnrecognizedMember)));
}

#[test]
fn malformed_identifier_stops_the_pass() {
    let r = unpack_entries(&vec![
        entry("zz000000000000000000000000000000/asset", b"BODY"),
        member(KEY, "/unknown-thing", b""),
    ]);
    assert!(matches!(r, Err(UnpackError::MalformedIdentifier)));
    let short = unpack_entries(&vec![entry("abc/asset", b"BODY")]);
    assert!(matches!(short, Err(UnpackError::MalformedIdentifier)));
}

#[test]
fn pathname_must_be_text() {
    let r = unpack_entries(&vec![member(KEY, "/pathname", &[0xff, 0xfe])]);
    assert!(matches!(r, Err(UnpackError::PathnameNotText)));
}

#[test]
fn pathname_text_is_kept_verbatim() {
    let t = unpack_entries(&vec![
        member(KEY, "/asset", b"X"),
        member(KEY, "/pathname", "Textures/ü b.png\n".as_bytes()),
    ])
    .unwrap();
    assert_eq!(sorted_paths(&t), vec!["Textures/ü b.png\n".to_string()]);
}

#[test]
fn empty_archive_gives_empty_tree() {
    let t = unpack_entries(&vec![]).unwrap();
    assert_eq!(t.len(), 0);
}
