//! Prefix patterns: which ones are acceptable, and whether an address starts
//! with one.
use vstd::prelude::*;
use vstd::string::StringSliceAdditionalSpecFns;
use vstd::utf8::{
    char_u32_cast, decode_first_codepoint, encode_utf8, encode_utf8_first_scalar, is_ascii_chars,
    length_of_first_codepoint,
};

verus! {

broadcast use vstd::string::group_string_axioms;

/// A lowercase hex digit: `0`..`9` or `a`..`f`.
pub open spec fn is_hex_char(c: char) -> bool {
    ('0' <= c && c <= '9') || ('a' <= c && c <= 'f')
}

/// Every character of `s` is a lowercase hex digit.
pub open spec fn is_hex_pattern(s: Seq<char>) -> bool {
    forall|i: int| 0 <= i < s.len() ==> is_hex_char(#[trigger] s[i])
}

/// A hex pattern is ASCII text.
pub proof fn lemma_hex_is_ascii(s: Seq<char>)
    requires
        is_hex_pattern(s),
    ensures
        is_ascii_chars(s),
{
    assert forall|i: int| 0 <= i < s.len() implies '\0' <= #[trigger] s[i] <= '\u{7f}' by {}
}

proof fn lemma_ascii_hex(c: char)
    requires
        '\0' <= c <= '\u{7f}',
    ensures
        is_hex_char(c) == ((48 <= (c as u8) && (c as u8) <= 57) || (97 <= (c as u8) && (c as u8) <= 102)),
{
    assert((c as u8) as u32 == c as u32);
}

fn is_hex_byte(b: u8) -> (r: bool)
    ensures
        r == ((48 <= b && b <= 57) || (97 <= b && b <= 102)),
{
    (b >= 97 && b <= 102) || (b >= 48 && b <= 57)
}

/// Whether `x` may be searched for: true exactly when every character of it
/// is a lowercase hex digit. The empty pattern is acceptable.
pub fn is_possible_pattern(x: &str) -> (r: bool)
    ensures
        r == is_hex_pattern(x@),
{
    if !x.is_ascii() {
        proof {
            let k = choose|k: int| 0 <= k < x@.len() && !('\0' <= #[trigger] x@[k] <= '\u{7f}');
            assert(!is_hex_char(x@[k]));
        }
        return false;
    }
    let b = x.as_bytes();
    assert(b@ == x.spec_bytes());
    assert(vstd::string::is_ascii(x));
    let n = b.len();
    let mut i: usize = 0;
    while i < n
        invariant
            n == b@.len(),
            n == x@.len(),
            b@ == x.spec_bytes(),
            is_ascii_chars(x@),
            b@ =~= Seq::new(x@.len(), |k| x@[k] as u8),
            0 <= i <= n,
            forall|k: int| 0 <= k < i ==> is_hex_char(#[trigger] x@[k]),
        decreases n - i,
    {
        proof {
            lemma_ascii_hex(x@[i as int]);
        }
        if !is_hex_byte(b[i]) {
            assert(!is_hex_char(x@[i as int]));
            return false;
        }
        i += 1;
    }
    true
}

/// `address` starts with `pattern`, character for character.
pub open spec fn starts_with(address: Seq<char>, pattern: Seq<char>) -> bool {
    pattern.is_prefix_of(address)
}

proof fn lemma_encode_concat(s1: Seq<char>, s2: Seq<char>)
    ensures
        encode_utf8(s1 + s2) == encode_utf8(s1) + encode_utf8(s2),
    decreases s1.len(),
{
    if s1.len() > 0 {
        assert((s1 + s2).drop_first() =~= s1.drop_first() + s2);
        lemma_encode_concat(s1.drop_first(), s2);
        assert(encode_utf8(s1 + s2) =~= encode_utf8(s1) + encode_utf8(s2));
    } else {
        assert(s1 + s2 =~= s2);
        assert(encode_utf8(s1) + encode_utf8(s2) =~= encode_utf8(s2));
    }
}

/// A prefix of the characters is a prefix of the UTF-8 bytes, and the other
/// way round.
proof fn lemma_utf8_prefix(address: Seq<char>, pattern: Seq<char>)
    ensures
        encode_utf8(pattern).is_prefix_of(encode_utf8(address)) == pattern.is_prefix_of(address),
    decreases pattern.len(),
{
    let ea = encode_utf8(address);
    let ep = encode_utf8(pattern);
    if pattern.is_prefix_of(address) {
        let rest = address.subrange(pattern.len() as int, address.len() as int);
        assert(address =~= pattern + rest);
        lemma_encode_concat(pattern, rest);
        assert(ep =~= ea.subrange(0, ep.len() as int));
    }
    if ep.is_prefix_of(ea) && pattern.len() > 0 {
        encode_utf8_first_scalar(pattern);
        assert(ep.len() > 0);
        assert(address.len() > 0);
        encode_utf8_first_scalar(address);
        let n = length_of_first_codepoint(ep);
        assert forall|k: int| 0 <= k < ep.len() implies ep[k] == ea[k] by {
            assert(ea.subrange(0, ep.len() as int)[k] == ea[k]);
        }
        assert(length_of_first_codepoint(ea) == n);
        assert(decode_first_codepoint(ea) == decode_first_codepoint(ep));
        assert(pattern[0] as u32 == address[0] as u32);
        char_u32_cast(pattern[0], pattern[0] as u32);
        char_u32_cast(address[0], address[0] as u32);
        assert(pattern[0] == address[0]);
        let ep2 = encode_utf8(pattern.drop_first());
        let ea2 = encode_utf8(address.drop_first());
        assert(ep2 =~= ep.subrange(n, ep.len() as int));
        assert(ea2 =~= ea.subrange(n, ea.len() as int));
        assert(ep2 =~= ea2.subrange(0, ep2.len() as int));
        assert(ep2.is_prefix_of(ea2));
        lemma_utf8_prefix(address.drop_first(), pattern.drop_first());
        let p2 = pattern.drop_first();
        let a2 = address.drop_first();
        assert(p2.is_prefix_of(a2));
        assert forall|k: int| 0 <= k < pattern.len() implies pattern[k] == address[k] by {
            if k > 0 {
                assert(p2[k - 1] == a2.subrange(0, p2.len() as int)[k - 1]);
            }
        }
        assert(pattern =~= address.subrange(0, pattern.len() as int));
    }
}

/// Whether `address` starts with `pattern`, character for character. The
/// comparison runs on the UTF-8 bytes, whose prefixes are exactly the
/// encodings of the character prefixes.
pub fn matches(address: &str, pattern: &str) -> (r: bool)
    ensures
        r == starts_with(address@, pattern@),
{
    proof {
        lemma_utf8_prefix(address@, pattern@);
    }
    let a = address.as_bytes();
    let p = pattern.as_bytes();
    let n = p.len();
    if n > a.len() {
        return false;
    }
    let mut i: usize = 0;
    while i < n
        invariant
            a@ == address.spec_bytes(),
            p@ == pattern.spec_bytes(),
            n == p@.len(),
            n <= a@.len(),
            0 <= i <= n,
            forall|k: int| 0 <= k < i ==> a@[k] == p@[k],
        decreases n - i,
    {
        if a[i] != p[i] {
            assert(a@.subrange(0, n as int)[i as int] != p@[i as int]);
            proof {
                lemma_utf8_prefix(address@, pattern@);
            }
            return false;
        }
        i += 1;
    }
    assert(p@ =~= a@.subrange(0, n as int));
    true
}

} // verus!
