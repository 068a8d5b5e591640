//! Lowercase hexadecimal rendering of byte strings, as used for cache keys.
use vstd::prelude::*;

verus! {

/// The lowercase hex digit for a value below 16.
pub open spec fn spec_hex_digit(d: u8) -> char
    recommends
        d < 16,
{
    if d == 0 {
        '0'
    } else if d == 1 {
        '1'
    } else if d == 2 {
        '2'
    } else if d == 3 {
        '3'
    } else if d == 4 {
        '4'
    } else if d == 5 {
        '5'
    } else if d == 6 {
        '6'
    } else if d == 7 {
        '7'
    } else if d == 8 {
        '8'
    } else if d == 9 {
        '9'
    } else if d == 10 {
        'a'
    } else if d == 11 {
        'b'
    } else if d == 12 {
        'c'
    } else if d == 13 {
        'd'
    } else if d == 14 {
        'e'
    } else {
        'f'
    }
}

/// The lowercase hex rendering of a byte string: two digits per byte,
/// high nibble first.
pub open spec fn spec_hex(bytes: Seq<u8>) -> Seq<char>
    decreases bytes.len(),
{
    if bytes.len() == 0 {
        Seq::empty()
    } else {
        spec_hex(bytes.drop_last()) + seq![
            spec_hex_digit(bytes.last() / 16),
            spec_hex_digit(bytes.last() % 16),
        ]
    }
}

/// `c` is a lowercase hexadecimal digit.
pub open spec fn is_lower_hex_char(c: char) -> bool {
    ('0' <= c && c <= '9') || ('a' <= c && c <= 'f')
}

/// Every character of `s` is a lowercase hexadecimal digit.
pub open spec fn is_lower_hex(s: Seq<char>) -> bool {
    forall|i: int| 0 <= i < s.len() ==> is_lower_hex_char(#[trigger] s[i])
}

/// Hex renderings consist of lowercase hex digits only.
pub proof fn lemma_spec_hex_is_lower_hex(bytes: Seq<u8>)
    ensures
        is_lower_hex(spec_hex(bytes)),
    decreases bytes.len(),
{
    if bytes.len() > 0 {
        lemma_spec_hex_is_lower_hex(bytes.drop_last());
        lemma_spec_hex_len(bytes.drop_last());
        let h = spec_hex(bytes);
        let p = spec_hex(bytes.drop_last());
        assert forall|i: int| 0 <= i < h.len() implies is_lower_hex_char(#[trigger] h[i]) by {
            if i < p.len() {
                assert(h[i] == p[i]);
            } else {
                assert(h[i] == spec_hex_digit(bytes.last() / 16) || h[i] == spec_hex_digit(
                    bytes.last() % 16,
                ));
            }
        }
    }
}

pub proof fn lemma_spec_hex_len(bytes: Seq<u8>)
    ensures
        spec_hex(bytes).len() == 2 * bytes.len(),
    decreases bytes.len(),
{
    if bytes.len() > 0 {
        lemma_spec_hex_len(bytes.drop_last());
    }
}

proof fn lemma_hex_digit_injective(d1: u8, d2: u8)
    requires
        d1 < 16,
        d2 < 16,
        d1 != d2,
    ensures
        spec_hex_digit(d1) != spec_hex_digit(d2),
{
}

/// Distinct byte strings of equal length render as distinct hex strings:
/// a cache key determines the digest it was rendered from.
pub proof fn lemma_spec_hex_injective(b1: Seq<u8>, b2: Seq<u8>)
    requires
        b1.len() == b2.len(),
        b1 != b2,
    ensures
        spec_hex(b1) != spec_hex(b2),
    decreases b1.len(),
{
    lemma_spec_hex_len(b1);
    lemma_spec_hex_len(b2);
    if b1.len() == 0 {
        assert(b1 =~= b2);
    } else {
        let l1 = b1.last();
        let l2 = b2.last();
        let p1 = spec_hex(b1.drop_last());
        let p2 = spec_hex(b2.drop_last());
        lemma_spec_hex_len(b1.drop_last());
        if l1 == l2 {
            if b1.drop_last() == b2.drop_last() {
                assert forall|i: int| 0 <= i < b1.len() implies b1[i] == b2[i] by {
                    if i < b1.len() - 1 {
                        assert(b1[i] == b1.drop_last()[i]);
                        assert(b2[i] == b2.drop_last()[i]);
                    } else {
                        assert(b1[i] == l1);
                        assert(b2[i] == l2);
                    }
                }
                assert(b1 =~= b2);
            }
            lemma_spec_hex_injective(b1.drop_last(), b2.drop_last());
            if forall|i: int| 0 <= i < p1.len() ==> p1[i] == p2[i] {
                assert(p1 =~= p2);
            }
            let i = choose|i: int| 0 <= i < p1.len() && p1[i] != p2[i];
            assert(spec_hex(b1)[i] == p1[i]);
            assert(spec_hex(b2)[i] == p2[i]);
        } else {
            let hi1 = l1 / 16;
            let hi2 = l2 / 16;
            let lo1 = l1 % 16;
            let lo2 = l2 % 16;
            let n = p1.len() as int;
            if hi1 != hi2 {
                lemma_hex_digit_injective(hi1, hi2);
                assert(spec_hex(b1)[n] == spec_hex_digit(hi1));
                assert(spec_hex(b2)[n] == spec_hex_digit(hi2));
            } else {
                assert(lo1 != lo2);
                lemma_hex_digit_injective(lo1, lo2);
                assert(spec_hex(b1)[n + 1] == spec_hex_digit(lo1));
                assert(spec_hex(b2)[n + 1] == spec_hex_digit(lo2));
            }
        }
    }
}

fn hex_digit_str(d: u8) -> (s: &'static str)
    requires
        d < 16,
    ensures
        s@ == seq![spec_hex_digit(d)],
{
    proof {
        reveal_strlit("0");
        reveal_strlit("1");
        reveal_strlit("2");
        reveal_strlit("3");
        reveal_strlit("4");
        reveal_strlit("5");
        reveal_strlit("6");
        reveal_strlit("7");
        reveal_strlit("8");
        reveal_strlit("9");
        reveal_strlit("a");
        reveal_strlit("b");
        reveal_strlit("c");
        reveal_strlit("d");
        reveal_strlit("e");
        reveal_strlit("f");
    }
    if d == 0 {
        "0"
    } else if d == 1 {
        "1"
    } else if d == 2 {
        "2"
    } else if d == 3 {
        "3"
    } else if d == 4 {
        "4"
    } else if d == 5 {
        "5"
    } else if d == 6 {
        "6"
    } else if d == 7 {
        "7"
    } else if d == 8 {
        "8"
    } else if d == 9 {
        "9"
    } else if d == 10 {
        "a"
    } else if d == 11 {
        "b"
    } else if d == 12 {
        "c"
    } else if d == 13 {
        "d"
    } else if d == 14 {
        "e"
    } else {
        "f"
    }
}

/// Renders `bytes` as lowercase hex, two digits per byte, high nibble first.
pub fn to_hex_lower(bytes: &Vec<u8>) -> (s: String)
    ensures
        s@ == spec_hex(bytes@),
{
    let mut s = String::new();
    let mut i: usize = 0;
    while i < bytes.len()
        invariant
            i <= bytes.len(),
            s@ == spec_hex(bytes@.subrange(0, i as int)),
        decreases bytes.len() - i,
    {
        let b = bytes[i];
        s.append(hex_digit_str(b / 16));
        s.append(hex_digit_str(b % 16));
        proof {
            assert(bytes@.subrange(0, i + 1 as int).drop_last() =~= bytes@.subrange(0, i as int));
            assert(s@ =~= spec_hex(bytes@.subrange(0, i + 1 as int)));
        }
        i = i + 1;
    }
    proof {
        assert(bytes@.subrange(0, bytes@.len() as int) =~= bytes@);
    }
    s
}

} // verus!
