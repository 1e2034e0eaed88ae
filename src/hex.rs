//! Bucket identifiers: parsing the 32-digit hexadecimal prefix of an entry
//! path and rendering an identifier as a placeholder file name.

use vstd::prelude::*;

verus! {

/// A hexadecimal digit, in either case.
pub open spec fn is_hex_digit(c: char) -> bool {
    ('0' <= c && c <= '9') || ('a' <= c && c <= 'f') || ('A' <= c && c <= 'F')
}

/// The value of one hexadecimal digit.
pub open spec fn digit_value(c: char) -> nat {
    if '0' <= c && c <= '9' {
        (c as int - '0' as int) as nat
    } else if 'a' <= c && c <= 'f' {
        (c as int - 'a' as int + 10) as nat
    } else {
        (c as int - 'A' as int + 10) as nat
    }
}

/// The number that a sequence of hexadecimal digits denotes, most significant first.
pub open spec fn hex_value(s: Seq<char>) -> nat
    decreases s.len(),
{
    if s.len() == 0 {
        0
    } else {
        hex_value(s.drop_last()) * 16 + digit_value(s.last())
    }
}

/// Sixteen to the power `n`.
pub open spec fn pow16(n: nat) -> nat
    decreases n,
{
    if n == 0 {
        1
    } else {
        16 * pow16((n - 1) as nat)
    }
}

/// Number of characters in the identifier prefix of an entry path.
pub const ID_DIGITS: usize = 32;

/// The identifier prefix of `path` is well formed: 32 hexadecimal digits.
pub open spec fn has_bucket_prefix(path: Seq<char>) -> bool {
    path.len() >= 32 && forall|i: int| 0 <= i < 32 ==> is_hex_digit(#[trigger] path[i])
}

/// The identifier that a well-formed prefix denotes.
pub open spec fn bucket_id_of(path: Seq<char>) -> nat {
    hex_value(path.take(32))
}

pub proof fn lemma_hex_value_bound(s: Seq<char>)
    requires
        forall|i: int| 0 <= i < s.len() ==> is_hex_digit(#[trigger] s[i]),
    ensures
        hex_value(s) < pow16(s.len()),
    decreases s.len(),
{
    if s.len() > 0 {
        let t = s.drop_last();
        assert forall|i: int| 0 <= i < t.len() implies is_hex_digit(#[trigger] t[i]) by {
            assert(t[i] == s[i]);
        }
        lemma_hex_value_bound(t);
        assert(is_hex_digit(s[s.len() - 1]));
        let a = hex_value(t);
        let b = pow16(t.len());
        let d = digit_value(s.last());
        assert(d < 16);
        assert(a * 16 + d < b * 16) by (nonlinear_arith)
            requires
                a < b,
                d < 16,
        ;
    }
}

proof fn lemma_pow16_32()
    ensures
        pow16(32) == 0x1_0000_0000_0000_0000_0000_0000_0000_0000,
{
    reveal_with_fuel(pow16, 33);
}

proof fn lemma_pow16_mono(a: nat, b: nat)
    requires
        a <= b,
    ensures
        pow16(a) <= pow16(b),
    decreases b,
{
    if a < b {
        lemma_pow16_mono(a, (b - 1) as nat);
    }
}

/// The value of `c` as a hexadecimal digit, or `None` if it is none.
pub fn hex_digit(c: char) -> (r: Option<u8>)
    ensures
        r.is_some() == is_hex_digit(c),
        r.is_some() ==> r.unwrap() as nat == digit_value(c),
{
    if '0' <= c && c <= '9' {
        Some((c as u32 - '0' as u32) as u8)
    } else if 'a' <= c && c <= 'f' {
        Some((c as u32 - 'a' as u32 + 10) as u8)
    } else if 'A' <= c && c <= 'F' {
        Some((c as u32 - 'A' as u32 + 10) as u8)
    } else {
        None
    }
}

/// Reads the bucket identifier from the first 32 characters of an entry path.
/// `None` when the path is shorter or one of those characters is not a
/// hexadecimal digit.
pub fn parse_bucket_id(path: &str) -> (r: Option<u128>)
    ensures
        r.is_some() == has_bucket_prefix(path@),
        r.is_some() ==> r.unwrap() as nat == bucket_id_of(path@),
{
    let n = path.unicode_len();
    if n < ID_DIGITS {
        return None;
    }
    let mut acc: u128 = 0;
    let mut i: usize = 0;
    while i < ID_DIGITS
        invariant
            n == path@.len(),
            n >= 32,
            i <= 32,
            forall|j: int| 0 <= j < i ==> is_hex_digit(#[trigger] path@[j]),
            acc as nat == hex_value(path@.take(i as int)),
            acc < pow16(i as nat),
        decreases 32 - i,
    {
        let c = path.get_char(i);
        match hex_digit(c) {
            None => {
                assert(!has_bucket_prefix(path@));
                return None;
            },
            Some(d) => {
                proof {
                    let s = path@.take(i as int + 1);
                    assert(s.drop_last() =~= path@.take(i as int));
                    assert(s.last() == c);
                    lemma_pow16_mono((i + 1) as nat, 32);
                    lemma_pow16_32();
                    let a = acc as nat;
                    let b = pow16(i as nat);
                    assert(a * 16 + d < b * 16) by (nonlinear_arith)
                        requires
                            a < b,
                            d < 16,
                    ;
                }
                acc = acc * 16 + d as u128;
                i = i + 1;
            },
        }
    }
    Some(acc)
}

/// The lower-case digit for a value below 16.
pub open spec fn hex_char(d: nat) -> char {
    seq!['0', '1', '2', '3', '4', '5', '6', '7', '8', '9', 'a', 'b', 'c', 'd', 'e', 'f'][d as int]
}

/// Lower-case hexadecimal rendering of `n` without leading zeros ("0" for zero).
pub open spec fn hex_text(n: nat) -> Seq<char>
    decreases n,
{
    if n < 16 {
        seq![hex_char(n)]
    } else {
        hex_text(n / 16) + seq![hex_char(n % 16)]
    }
}

/// `s` with zeros put in front until it has at least 16 characters.
pub open spec fn pad16(s: Seq<char>) -> Seq<char>
    decreases 16 - s.len(),
{
    if s.len() >= 16 {
        s
    } else {
        pad16(seq!['0'] + s)
    }
}

/// The name under which a bucket's content waits for its real path: the
/// identifier in lower-case hexadecimal, zero-padded to at least 16 digits.
pub open spec fn placeholder(id: nat) -> Seq<char> {
    pad16(hex_text(id))
}

fn digit_text(d: u128) -> (r: &'static str)
    requires
        d < 16,
    ensures
        r@ == seq![hex_char(d as nat)],
{
    let digits = "0123456789abcdef";
    proof {
        reveal_strlit("0123456789abcdef");
    }
    let r = digits.substring_char(d as usize, d as usize + 1);
    assert(r@ =~= seq![hex_char(d as nat)]);
    r
}

/// Renders `id` as its placeholder file name.
pub fn placeholder_name(id: u128) -> (r: String)
    ensures
        r@ == placeholder(id as nat),
{
    let mut n: u128 = id;
    let mut acc = String::new();
    while n >= 16
        invariant
            hex_text(id as nat) == hex_text(n as nat) + acc@,
        decreases n,
    {
        let d = digit_text(n % 16);
        let ghost old_acc = acc@;
        acc = String::from_str(d).concat(acc.as_str());
        assert(hex_text(n as nat) == hex_text((n / 16) as nat) + seq![hex_char((n % 16) as nat)]);
        assert(hex_text(id as nat) =~= hex_text((n / 16) as nat) + acc@);
        n = n / 16;
    }
    acc = String::from_str(digit_text(n)).concat(acc.as_str());
    assert(acc@ =~= hex_text(id as nat));
    let mut len: usize = acc.unicode_len();
    let zero = "0";
    proof {
        reveal_strlit("0");
    }
    while len < 16
        invariant
            len == acc@.len(),
            pad16(acc@) == placeholder(id as nat),
            zero@ == seq!['0'],
        decreases 16 - len,
    {
        acc = String::from_str(zero).concat(acc.as_str());
        len = len + 1;
    }
    acc
}

} // verus!
