//! The canonical text form of 128-bit identifiers: 32 hexadecimal digits
//! in five hyphen-separated groups of 8, 4, 4, 4 and 12. Formatting
//! produces lowercase digits; parsing accepts either case and refuses
//! anything that is not exactly this shape. Parsing what was formatted
//! gives the identifier back.

use vstd::arithmetic::power::pow;
use vstd::prelude::*;

use crate::trusted;

verus! {

/// The lowercase hexadecimal digit for a value below sixteen.
pub open spec fn hex_char(d: int) -> char {
    if d == 0 {
        '0'
    } else if d == 1 {
        '1'
    } else if d == 2 {
        '2'
    } else if d == 3 {
        '3'
    } else if d == 4 {
        '4'
    } else if d == 5 {
        '5'
    } else if d == 6 {
        '6'
    } else if d == 7 {
        '7'
    } else if d == 8 {
        '8'
    } else if d == 9 {
        '9'
    } else if d == 10 {
        'a'
    } else if d == 11 {
        'b'
    } else if d == 12 {
        'c'
    } else if d == 13 {
        'd'
    } else if d == 14 {
        'e'
    } else {
        'f'
    }
}

/// The value of a hexadecimal digit of either case, `-1` for any other
/// character.
pub open spec fn hex_val(c: char) -> int {
    if c == '0' {
        0
    } else if c == '1' {
        1
    } else if c == '2' {
        2
    } else if c == '3' {
        3
    } else if c == '4' {
        4
    } else if c == '5' {
        5
    } else if c == '6' {
        6
    } else if c == '7' {
        7
    } else if c == '8' {
        8
    } else if c == '9' {
        9
    } else if c == 'a' || c == 'A' {
        10
    } else if c == 'b' || c == 'B' {
        11
    } else if c == 'c' || c == 'C' {
        12
    } else if c == 'd' || c == 'D' {
        13
    } else if c == 'e' || c == 'E' {
        14
    } else if c == 'f' || c == 'F' {
        15
    } else {
        -1
    }
}

/// The `w` least significant hexadecimal digits of `v`, most significant
/// first.
pub open spec fn hex_seq(v: int, w: nat) -> Seq<char>
    decreases w,
{
    if w == 0 {
        Seq::empty()
    } else {
        hex_seq(v / 16, (w - 1) as nat).push(hex_char(v % 16))
    }
}

/// The value of a digit string, most significant digit first.
pub open spec fn fold_hex(s: Seq<char>) -> int
    decreases s.len(),
{
    if s.len() == 0 {
        0
    } else {
        fold_hex(s.drop_last()) * 16 + hex_val(s.last())
    }
}

/// The canonical text of identifier `n`.
pub open spec fn uuid_seq(n: u128) -> Seq<char> {
    let hs = hex_seq(n as int, 32);
    hs.subrange(0, 8) + seq!['-'] + hs.subrange(8, 12) + seq!['-'] + hs.subrange(12, 16)
        + seq!['-'] + hs.subrange(16, 20) + seq!['-'] + hs.subrange(20, 32)
}

/// The 32 digit characters of a 36-character identifier text, hyphens
/// removed.
pub open spec fn strip_uuid(s: Seq<char>) -> Seq<char> {
    s.subrange(0, 8) + s.subrange(9, 13) + s.subrange(14, 18) + s.subrange(19, 23) + s.subrange(
        24,
        36,
    )
}

/// Whether `s` has the canonical shape: 36 characters, hyphens exactly at
/// positions 8, 13, 18 and 23, hexadecimal digits everywhere else.
pub open spec fn uuid_text_valid(s: Seq<char>) -> bool {
    &&& s.len() == 36
    &&& s[8] == '-'
    &&& s[13] == '-'
    &&& s[18] == '-'
    &&& s[23] == '-'
    &&& forall|k: int| 0 <= k < 32 ==> 0 <= hex_val(#[trigger] strip_uuid(s)[k]) < 16
}

/// The identifier a canonical text denotes, if it has the shape.
pub open spec fn parse_uuid(s: Seq<char>) -> Option<int> {
    if uuid_text_valid(s) {
        Some(fold_hex(strip_uuid(s)))
    } else {
        None
    }
}

/// Where the `k`-th digit of the stripped text sits in the full text.
pub open spec fn digit_pos(k: int) -> int {
    if k < 8 {
        k
    } else if k < 12 {
        k + 1
    } else if k < 16 {
        k + 2
    } else if k < 20 {
        k + 3
    } else {
        k + 4
    }
}

/// Stripping commutes with indexing through [`digit_pos`].
proof fn lemma_strip_index(s: Seq<char>, k: int)
    requires
        s.len() == 36,
        0 <= k < 32,
    ensures
        strip_uuid(s)[k] == s[digit_pos(k)],
{
}

/// Formatting then reading a digit gives the digit back.
proof fn lemma_hex_char_val(d: int)
    requires
        0 <= d < 16,
    ensures
        hex_val(hex_char(d)) == d,
{
}

/// A digit string of `v` has the stated width and holds digits only.
proof fn lemma_hex_seq_digits(v: int, w: nat)
    requires
        v >= 0,
    ensures
        hex_seq(v, w).len() == w,
        forall|k: int| 0 <= k < w ==> 0 <= hex_val(#[trigger] hex_seq(v, w)[k]) < 16,
    decreases w,
{
    if w > 0 {
        lemma_hex_seq_digits(v / 16, (w - 1) as nat);
        lemma_hex_char_val(v % 16);
        assert forall|k: int| 0 <= k < w implies 0 <= hex_val(#[trigger] hex_seq(v, w)[k])
            < 16 by {
            if k < w - 1 {
                assert(hex_seq(v, w)[k] == hex_seq(v / 16, (w - 1) as nat)[k]);
            } else {
                assert(hex_seq(v, w)[k] == hex_char(v % 16));
            }
        };
    }
}

/// Reading back a digit string gives the value it was made from.
proof fn lemma_fold_hex_seq(v: int, w: nat)
    requires
        0 <= v < pow(16, w),
    ensures
        fold_hex(hex_seq(v, w)) == v,
    decreases w,
{
    if w == 0 {
        assert(pow(16, 0) == 1) by {
            vstd::arithmetic::power::lemma_pow0(16);
        };
    } else {
        assert(pow(16, w) == 16 * pow(16, (w - 1) as nat)) by {
            vstd::arithmetic::power::lemma_pow1(16);
            vstd::arithmetic::power::lemma_pow_adds(16, 1nat, (w - 1) as nat);
        };
        assert(v / 16 < pow(16, (w - 1) as nat)) by (nonlinear_arith)
            requires
                v >= 0,
                v < 16 * pow(16, (w - 1) as nat),
        ;
        lemma_fold_hex_seq(v / 16, (w - 1) as nat);
        let hs = hex_seq(v, w);
        assert(hs.drop_last() =~= hex_seq(v / 16, (w - 1) as nat));
        assert(hs.last() == hex_char(v % 16));
        lemma_hex_char_val(v % 16);
        assert(fold_hex(hs) == fold_hex(hs.drop_last()) * 16 + hex_val(hs.last()));
        assert(fold_hex(hs) == (v / 16) * 16 + v % 16);
    }
}

/// Sixteen to the 32nd, written out: the number of 32-digit strings.
proof fn lemma_pow16_32()
    ensures
        pow(16, 32) == 0x100000000000000000000000000000000,
{
    reveal_with_fuel(pow, 33);
}

/// Parsing the canonical text of an identifier gives the identifier back.
pub proof fn lemma_uuid_roundtrip(n: u128)
    ensures
        parse_uuid(uuid_seq(n)) == Some(n as int),
{
    let hs = hex_seq(n as int, 32);
    lemma_hex_seq_digits(n as int, 32);
    let u = uuid_seq(n);
    assert(u.len() == 36);
    assert(strip_uuid(u) =~= hs);
    assert(u[8] == '-');
    assert(u[13] == '-');
    assert(u[18] == '-');
    assert(u[23] == '-');
    assert(uuid_text_valid(u));
    lemma_pow16_32();
    lemma_fold_hex_seq(n as int, 32);
}

/// The lowercase hexadecimal digit for a value below sixteen.
fn hex_char_of(d: u8) -> (r: char)
    requires
        d < 16,
    ensures
        r == hex_char(d as int),
{
    if d == 0 {
        '0'
    } else if d == 1 {
        '1'
    } else if d == 2 {
        '2'
    } else if d == 3 {
        '3'
    } else if d == 4 {
        '4'
    } else if d == 5 {
        '5'
    } else if d == 6 {
        '6'
    } else if d == 7 {
        '7'
    } else if d == 8 {
        '8'
    } else if d == 9 {
        '9'
    } else if d == 10 {
        'a'
    } else if d == 11 {
        'b'
    } else if d == 12 {
        'c'
    } else if d == 13 {
        'd'
    } else if d == 14 {
        'e'
    } else {
        'f'
    }
}

/// The value of a hexadecimal digit of either case, `-1` for any other
/// character.
fn hex_val_of(c: char) -> (r: i32)
    ensures
        r as int == hex_val(c),
{
    if c == '0' {
        0
    } else if c == '1' {
        1
    } else if c == '2' {
        2
    } else if c == '3' {
        3
    } else if c == '4' {
        4
    } else if c == '5' {
        5
    } else if c == '6' {
        6
    } else if c == '7' {
        7
    } else if c == '8' {
        8
    } else if c == '9' {
        9
    } else if c == 'a' || c == 'A' {
        10
    } else if c == 'b' || c == 'B' {
        11
    } else if c == 'c' || c == 'C' {
        12
    } else if c == 'd' || c == 'D' {
        13
    } else if c == 'e' || c == 'E' {
        14
    } else if c == 'f' || c == 'F' {
        15
    } else {
        -1
    }
}

/// The canonical text of identifier `n`.
pub fn format_uuid(n: u128) -> (r: String)
    ensures
        r@ == uuid_seq(n),
{
    let ghost hs = hex_seq(n as int, 32);
    proof {
        lemma_hex_seq_digits(n as int, 32);
    }
    let mut rv: Vec<char> = Vec::new();
    let mut v: u128 = n;
    proof {
        assert(hs =~= hex_seq(v as int, 32) + rv@.reverse());
    }
    for i in 0..32usize
        invariant
            rv@.len() == i,
            hs == hex_seq(n as int, 32),
            hs == hex_seq(v as int, (32 - i) as nat) + rv@.reverse(),
    {
        let d: u8 = (v % 16) as u8;
        let c = hex_char_of(d);
        rv.push(c);
        proof {
            let w = (32 - i) as nat;
            assert(hex_seq(v as int, w) == hex_seq(v as int / 16, (w - 1) as nat).push(
                hex_char(v as int % 16),
            ));
            assert(c == hex_char(v as int % 16));
            assert(rv@.reverse() =~= seq![c] + rv@.drop_last().reverse());
            assert(hex_seq(v as int / 16, (w - 1) as nat).push(c) + rv@.drop_last().reverse()
                =~= hex_seq(v as int / 16, (w - 1) as nat) + (seq![c]
                + rv@.drop_last().reverse()));
            assert((v / 16) as int == v as int / 16);
        }
        v = v / 16;
    }
    proof {
        assert(hex_seq(v as int, 0) =~= Seq::<char>::empty());
        assert(hs =~= rv@.reverse());
        assert(forall|j: int| 0 <= j < 32 ==> #[trigger] rv@[j] == hs[31 - j]);
    }
    let mut r = String::new();
    for p in 0..36usize
        invariant
            rv@.len() == 32,
            hs == hex_seq(n as int, 32),
            hs.len() == 32,
            forall|j: int| 0 <= j < 32 ==> #[trigger] rv@[j] == hs[31 - j],
            r@ == uuid_seq(n).subrange(0, p as int),
            uuid_seq(n).len() == 36,
    {
        if p == 8 || p == 13 || p == 18 || p == 23 {
            trusted::push_char(&mut r, '-');
            proof {
                assert(uuid_seq(n)[p as int] == '-');
                assert(uuid_seq(n).subrange(0, p as int + 1) =~= uuid_seq(n).subrange(
                    0,
                    p as int,
                ).push(uuid_seq(n)[p as int]));
            }
        } else {
            let dp: usize = if p < 8 {
                p
            } else if p < 13 {
                p - 1
            } else if p < 18 {
                p - 2
            } else if p < 23 {
                p - 3
            } else {
                p - 4
            };
            let c = rv[31 - dp];
            trusted::push_char(&mut r, c);
            proof {
                assert(c == hs[dp as int]);
                assert(strip_uuid(uuid_seq(n)) =~= hs);
                lemma_strip_index(uuid_seq(n), dp as int);
                assert(p as int == digit_pos(dp as int));
                assert(uuid_seq(n)[p as int] == hs[dp as int]);
                assert(uuid_seq(n).subrange(0, p as int + 1) =~= uuid_seq(n).subrange(
                    0,
                    p as int,
                ).push(uuid_seq(n)[p as int]));
            }
        }
    }
    proof {
        assert(r@ =~= uuid_seq(n));
    }
    r
}

/// The identifier a canonical text denotes, or nothing when the text does
/// not have the shape.
pub fn parse_uuid_str(s: &str) -> (r: Option<u128>)
    ensures
        match r {
            Some(id) => parse_uuid(s@) == Some(id as int),
            None => parse_uuid(s@) is None,
        },
{
    let n = s.unicode_len();
    if n != 36 {
        return None;
    }
    if s.get_char(8) != '-' || s.get_char(13) != '-' || s.get_char(18) != '-' || s.get_char(23)
        != '-' {
        return None;
    }
    let ghost st = strip_uuid(s@);
    let mut acc: u128 = 0;
    proof {
        lemma_pow16_32();
        vstd::arithmetic::power::lemma_pow0(16);
        assert(st.subrange(0, 0) =~= Seq::<char>::empty());
    }
    for k in 0..32usize
        invariant
            s@.len() == 36,
            st == strip_uuid(s@),
            st.len() == 32,
            acc as int == fold_hex(st.subrange(0, k as int)),
            (acc as int) < pow(16, k as nat),
            pow(16, 32) == 0x100000000000000000000000000000000,
            forall|m: int| 0 <= m < k ==> 0 <= hex_val(#[trigger] st[m]) < 16,
    {
        let p: usize = if k < 8 {
            k
        } else if k < 12 {
            k + 1
        } else if k < 16 {
            k + 2
        } else if k < 20 {
            k + 3
        } else {
            k + 4
        };
        let c = s.get_char(p);
        proof {
            lemma_strip_index(s@, k as int);
            assert(st[k as int] == s@[digit_pos(k as int)]);
            assert(p as int == digit_pos(k as int));
        }
        let d = hex_val_of(c);
        proof {
            assert(d < 16);
        }
        if d < 0 {
            proof {
                assert(hex_val(st[k as int]) < 0);
                assert(!uuid_text_valid(s@));
            }
            return None;
        }
        proof {
            assert(pow(16, (k + 1) as nat) == 16 * pow(16, k as nat)) by {
                vstd::arithmetic::power::lemma_pow1(16);
                vstd::arithmetic::power::lemma_pow_adds(16, 1nat, k as nat);
            };
            assert(16 * pow(16, k as nat) <= pow(16, 32)) by {
                vstd::arithmetic::power::lemma_pow_increases(16, (k + 1) as nat, 32);
            };
            assert((acc as int) * 16 + d < 16 * pow(16, k as nat)) by (nonlinear_arith)
                requires
                    (acc as int) < pow(16, k as nat),
                    0 <= d < 16,
            ;
            assert(st.subrange(0, k as int + 1) =~= st.subrange(0, k as int).push(st[k as int]));
            assert(st.subrange(0, k as int + 1).drop_last() =~= st.subrange(0, k as int));
            assert(st.subrange(0, k as int + 1).last() == st[k as int]);
            assert(fold_hex(st.subrange(0, k as int + 1)) == fold_hex(st.subrange(0, k as int))
                * 16 + hex_val(st[k as int]));
            assert(hex_val(st[k as int]) == d as int);
        }
        acc = acc * 16 + (d as u128);
    }
    proof {
        assert(st.subrange(0, 32) =~= st);
        assert(uuid_text_valid(s@));
    }
    Some(acc)
}

} // verus!
