//! Record identifiers: freshly drawn 128-bit UUIDs and their hyphenated
//! hexadecimal text form.

use vstd::arithmetic::power::pow;
use vstd::prelude::*;

use crate::text::push_char;

verus! {

/// Relies on `uuid::Uuid::new_v4` (read through `Uuid::as_u128`): the
/// version and variant bits are always set, so the value is never nil.
/// The rest is random, so nothing more is promised.
#[verifier::external_body]
pub fn fresh_uuid() -> (id: u128)
    ensures
        id != 0,
{
    uuid::Uuid::new_v4().as_u128()
}

/// The lower-case hexadecimal digit of value `d`.
pub open spec fn hex_char(d: int) -> char {
    if d == 0 {
        '0'
    } else if d == 1 {
        '1'
    } else if d == 2 {
        '2'
    } else if d == 3 {
        '3'
    } else if d == 4 {
        '4'
    } else if d == 5 {
        '5'
    } else if d == 6 {
        '6'
    } else if d == 7 {
        '7'
    } else if d == 8 {
        '8'
    } else if d == 9 {
        '9'
    } else if d == 10 {
        'a'
    } else if d == 11 {
        'b'
    } else if d == 12 {
        'c'
    } else if d == 13 {
        'd'
    } else if d == 14 {
        'e'
    } else {
        'f'
    }
}

/// The value of a hexadecimal digit; 16 marks a character that is none.
/// Both letter cases are digits.
pub open spec fn hex_val(c: char) -> int {
    if c == '0' {
        0
    } else if c == '1' {
        1
    } else if c == '2' {
        2
    } else if c == '3' {
        3
    } else if c == '4' {
        4
    } else if c == '5' {
        5
    } else if c == '6' {
        6
    } else if c == '7' {
        7
    } else if c == '8' {
        8
    } else if c == '9' {
        9
    } else if c == 'a' || c == 'A' {
        10
    } else if c == 'b' || c == 'B' {
        11
    } else if c == 'c' || c == 'C' {
        12
    } else if c == 'd' || c == 'D' {
        13
    } else if c == 'e' || c == 'E' {
        14
    } else if c == 'f' || c == 'F' {
        15
    } else {
        16
    }
}

/// The last `count` hexadecimal digits of `v`, most significant first.
pub open spec fn hex_digits(v: int, count: nat) -> Seq<char>
    decreases count,
{
    if count == 0 {
        Seq::empty()
    } else {
        hex_digits(v / 16, (count - 1) as nat).push(hex_char(v % 16))
    }
}

/// The hyphenated textual form of a UUID: 8-4-4-4-12 lower-case
/// hexadecimal digits.
pub open spec fn uuid_chars(id: u128) -> Seq<char> {
    let h = hex_digits(id as int, 32);
    h.subrange(0, 8) + seq!['-'] + h.subrange(8, 12) + seq!['-'] + h.subrange(12, 16) + seq!['-']
        + h.subrange(16, 20) + seq!['-'] + h.subrange(20, 32)
}

/// Whether every character of `s` is a hexadecimal digit.
pub open spec fn is_hex_seq(s: Seq<char>) -> bool {
    forall|i: int| 0 <= i < s.len() ==> hex_val(s[i]) < 16
}

/// The value of a sequence of hexadecimal digits, most significant first.
pub open spec fn hex_seq_val(s: Seq<char>) -> int
    decreases s.len(),
{
    if s.len() == 0 {
        0
    } else {
        hex_seq_val(s.drop_last()) * 16 + hex_val(s.last())
    }
}

/// The UUID denoted by `s`, if `s` is a well-formed hyphenated UUID.
pub open spec fn uuid_of_chars(s: Seq<char>) -> Option<u128> {
    if s.len() == 36 && s[8] == '-' && s[13] == '-' && s[18] == '-' && s[23] == '-' {
        let h = s.subrange(0, 8) + s.subrange(9, 13) + s.subrange(14, 18) + s.subrange(19, 23)
            + s.subrange(24, 36);
        if is_hex_seq(h) {
            Some(hex_seq_val(h) as u128)
        } else {
            None
        }
    } else {
        None
    }
}

pub proof fn lemma_hex_digits_len(v: int, count: nat)
    ensures
        hex_digits(v, count).len() == count,
    decreases count,
{
    if count > 0 {
        lemma_hex_digits_len(v / 16, (count - 1) as nat);
    }
}

pub proof fn lemma_hex_digits_are_hex(v: int, count: nat)
    requires
        v >= 0,
    ensures
        is_hex_seq(hex_digits(v, count)),
    decreases count,
{
    if count > 0 {
        lemma_hex_digits_are_hex(v / 16, (count - 1) as nat);
        let prefix = hex_digits(v / 16, (count - 1) as nat);
        let whole = hex_digits(v, count);
        assert(whole == prefix.push(hex_char(v % 16)));
        assert(hex_val(hex_char(v % 16)) < 16);
        assert forall|i: int| 0 <= i < whole.len() implies hex_val(whole[i]) < 16 by {
            if i < prefix.len() {
                assert(whole[i] == prefix[i]);
            }
        }
    }
}

/// The two powers of 16 that bound a 128-bit value, made concrete.
pub proof fn lemma_pow16_128()
    ensures
        pow(16, 31) == 0x10000000000000000000000000000000,
        pow(16, 32) == 0x100000000000000000000000000000000,
{
    reveal(pow);
    assert(pow(16, 0) == 1);
    assert(pow(16, 1) == 16 * pow(16, 0));
    assert(pow(16, 2) == 16 * pow(16, 1));
    assert(pow(16, 3) == 16 * pow(16, 2));
    assert(pow(16, 4) == 16 * pow(16, 3));
    assert(pow(16, 5) == 16 * pow(16, 4));
    assert(pow(16, 6) == 16 * pow(16, 5));
    assert(pow(16, 7) == 16 * pow(16, 6));
    assert(pow(16, 8) == 16 * pow(16, 7));
    assert(pow(16, 9) == 16 * pow(16, 8));
    assert(pow(16, 10) == 16 * pow(16, 9));
    assert(pow(16, 11) == 16 * pow(16, 10));
    assert(pow(16, 12) == 16 * pow(16, 11));
    assert(pow(16, 13) == 16 * pow(16, 12));
    assert(pow(16, 14) == 16 * pow(16, 13));
    assert(pow(16, 15) == 16 * pow(16, 14));
    assert(pow(16, 16) == 16 * pow(16, 15));
    assert(pow(16, 17) == 16 * pow(16, 16));
    assert(pow(16, 18) == 16 * pow(16, 17));
    assert(pow(16, 19) == 16 * pow(16, 18));
    assert(pow(16, 20) == 16 * pow(16, 19));
    assert(pow(16, 21) == 16 * pow(16, 20));
    assert(pow(16, 22) == 16 * pow(16, 21));
    assert(pow(16, 23) == 16 * pow(16, 22));
    assert(pow(16, 24) == 16 * pow(16, 23));
    assert(pow(16, 25) == 16 * pow(16, 24));
    assert(pow(16, 26) == 16 * pow(16, 25));
    assert(pow(16, 27) == 16 * pow(16, 26));
    assert(pow(16, 28) == 16 * pow(16, 27));
    assert(pow(16, 29) == 16 * pow(16, 28));
    assert(pow(16, 30) == 16 * pow(16, 29));
    assert(pow(16, 31) == 16 * pow(16, 30));
    assert(pow(16, 32) == 16 * pow(16, 31));
}

/// Reading back the digits of `v` yields `v`.
pub proof fn lemma_hex_digits_val(v: int, count: nat)
    requires
        0 <= v < pow(16, count),
    ensures
        hex_seq_val(hex_digits(v, count)) == v,
    decreases count,
{
    reveal(pow);
    if count == 0 {
        assert(pow(16, 0) == 1);
    } else {
        assert(pow(16, count) == 16 * pow(16, (count - 1) as nat));
        assert(v / 16 < pow(16, (count - 1) as nat)) by (nonlinear_arith)
            requires
                v < 16 * pow(16, (count - 1) as nat),
                v >= 0,
        ;
        lemma_hex_digits_val(v / 16, (count - 1) as nat);
        let prefix = hex_digits(v / 16, (count - 1) as nat);
        let whole = hex_digits(v, count);
        assert(whole.drop_last() =~= prefix);
        assert(hex_val(hex_char(v % 16)) == v % 16);
        assert(hex_seq_val(whole) == (v / 16) * 16 + v % 16);
        assert((v / 16) * 16 + v % 16 == v) by (nonlinear_arith)
            requires
                v >= 0,
        ;
    }
}

/// Each digit of `v` read off positionally.
pub proof fn lemma_hex_digits_index(v: int, count: nat, i: int)
    requires
        v >= 0,
        0 <= i < count,
    ensures
        hex_digits(v, count).len() == count,
        hex_digits(v, count)[i] == hex_char((v / pow(16, (count - 1 - i) as nat)) % 16),
    decreases count,
{
    reveal(pow);
    lemma_hex_digits_len(v, count);
    let prefix = hex_digits(v / 16, (count - 1) as nat);
    lemma_hex_digits_len(v / 16, (count - 1) as nat);
    if i == count - 1 {
        assert(pow(16, 0) == 1);
        assert(v / 1 == v);
    } else {
        lemma_hex_digits_index(v / 16, (count - 1) as nat, i);
        let e = (count - 2 - i) as nat;
        assert(hex_digits(v, count)[i] == prefix[i]);
        assert(prefix[i] == hex_char((v / 16 / pow(16, e)) % 16));
        assert(pow(16, (e + 1) as nat) == 16 * pow(16, e));
        assert(pow(16, e) > 0) by {
            vstd::arithmetic::power::lemma_pow_positive(16, e);
        }
        assert(v / 16 / pow(16, e) == v / (16 * pow(16, e))) by {
            vstd::arithmetic::div_mod::lemma_div_denominator(v, 16, pow(16, e));
        }
    }
}

/// Law: reading a printed UUID back yields the original value.
pub proof fn lemma_uuid_roundtrip(id: u128)
    ensures
        uuid_of_chars(uuid_chars(id)) == Some(id),
{
    let v = id as int;
    let h = hex_digits(v, 32);
    lemma_hex_digits_len(v, 32);
    lemma_hex_digits_are_hex(v, 32);
    let s = uuid_chars(id);
    assert(s.len() == 36);
    assert(s[8] == '-');
    assert(s[13] == '-');
    assert(s[18] == '-');
    assert(s[23] == '-');
    let back = s.subrange(0, 8) + s.subrange(9, 13) + s.subrange(14, 18) + s.subrange(19, 23)
        + s.subrange(24, 36);
    assert(back =~= h);
    lemma_pow16_128();
    lemma_hex_digits_val(v, 32);
}

/// The digit character for a value below 16.
pub fn hex_char_of(d: u8) -> (c: char)
    requires
        d < 16,
    ensures
        c == hex_char(d as int),
{
    if d == 0 {
        '0'
    } else if d == 1 {
        '1'
    } else if d == 2 {
        '2'
    } else if d == 3 {
        '3'
    } else if d == 4 {
        '4'
    } else if d == 5 {
        '5'
    } else if d == 6 {
        '6'
    } else if d == 7 {
        '7'
    } else if d == 8 {
        '8'
    } else if d == 9 {
        '9'
    } else if d == 10 {
        'a'
    } else if d == 11 {
        'b'
    } else if d == 12 {
        'c'
    } else if d == 13 {
        'd'
    } else if d == 14 {
        'e'
    } else {
        'f'
    }
}

/// The value of a digit character; 16 marks a character that is none.
pub fn hex_val_of(c: char) -> (v: u8)
    ensures
        v as int == hex_val(c),
{
    if c == '0' {
        0
    } else if c == '1' {
        1
    } else if c == '2' {
        2
    } else if c == '3' {
        3
    } else if c == '4' {
        4
    } else if c == '5' {
        5
    } else if c == '6' {
        6
    } else if c == '7' {
        7
    } else if c == '8' {
        8
    } else if c == '9' {
        9
    } else if c == 'a' || c == 'A' {
        10
    } else if c == 'b' || c == 'B' {
        11
    } else if c == 'c' || c == 'C' {
        12
    } else if c == 'd' || c == 'D' {
        13
    } else if c == 'e' || c == 'E' {
        14
    } else if c == 'f' || c == 'F' {
        15
    } else {
        16
    }
}

/// `16^e` for small exponents.
fn pow16(e: usize) -> (p: u128)
    requires
        e <= 31,
    ensures
        p as int == pow(16, e as nat),
{
    proof {
        lemma_pow16_128();
        vstd::arithmetic::power::lemma_pow0(16);
    }
    let mut p: u128 = 1;
    let mut j: usize = 0;
    while j < e
        invariant
            j <= e <= 31,
            p as int == pow(16, j as nat),
        decreases e - j,
    {
        proof {
            vstd::arithmetic::power::lemma_pow_adds(16, j as nat, 1);
            vstd::arithmetic::power::lemma_pow1(16);
            vstd::arithmetic::power::lemma_pow_increases(16, (j + 1) as nat, 31);
            lemma_pow16_128();
        }
        p = p * 16;
        j = j + 1;
    }
    p
}

/// Print `id` as a hyphenated lower-case UUID.
pub fn uuid_to_string(id: u128) -> (text: String)
    ensures
        text@ == uuid_chars(id),
{
    let ghost h = hex_digits(id as int, 32);
    proof {
        lemma_hex_digits_len(id as int, 32);
    }
    let mut text = String::new();
    let mut k: usize = 0;
    while k < 32
        invariant
            k <= 32,
            h == hex_digits(id as int, 32),
            h.len() == 32,
            text@ == uuid_prefix(h, k as int),
        decreases 32 - k,
    {
        if k == 8 || k == 12 || k == 16 || k == 20 {
            push_char(&mut text, '-');
        }
        let divisor = pow16(31 - k);
        proof {
            vstd::arithmetic::power::lemma_pow_positive(16, (31 - k) as nat);
            lemma_hex_digits_index(id as int, 32, k as int);
        }
        let digit = ((id / divisor) % 16) as u8;
        push_char(&mut text, hex_char_of(digit));
        k = k + 1;
        assert(text@ =~= uuid_prefix(h, k as int));
    }
    proof {
        assert(text@ =~= uuid_chars(id));
    }
    text
}

/// The first `k` digits of `h` in hyphenated UUID layout.
pub open spec fn uuid_prefix(h: Seq<char>, k: int) -> Seq<char> {
    if k <= 8 {
        h.subrange(0, k)
    } else if k <= 12 {
        h.subrange(0, 8) + seq!['-'] + h.subrange(8, k)
    } else if k <= 16 {
        h.subrange(0, 8) + seq!['-'] + h.subrange(8, 12) + seq!['-'] + h.subrange(12, k)
    } else if k <= 20 {
        h.subrange(0, 8) + seq!['-'] + h.subrange(8, 12) + seq!['-'] + h.subrange(12, 16)
            + seq!['-'] + h.subrange(16, k)
    } else {
        h.subrange(0, 8) + seq!['-'] + h.subrange(8, 12) + seq!['-'] + h.subrange(12, 16)
            + seq!['-'] + h.subrange(16, 20) + seq!['-'] + h.subrange(20, k)
    }
}

/// Parse a hyphenated UUID.
pub fn uuid_from_str(s: &str) -> (id: Option<u128>)
    ensures
        id == uuid_of_chars(s@),
{
    let chars = crate::text::chars_of(s);
    if chars.len() != 36 {
        return None;
    }
    if !(chars[8] == '-' && chars[13] == '-' && chars[18] == '-' && chars[23] == '-') {
        return None;
    }
    let ghost h = s@.subrange(0, 8) + s@.subrange(9, 13) + s@.subrange(14, 18) + s@.subrange(
        19,
        23,
    ) + s@.subrange(24, 36);
    proof {
        assert(h.len() == 32);
    }
    proof {
        vstd::arithmetic::power::lemma_pow0(16);
    }
    let mut acc: u128 = 0;
    let mut j: usize = 0;
    while j < 32
        invariant
            j <= 32,
            chars@ == s@,
            s@.len() == 36,
            h == s@.subrange(0, 8) + s@.subrange(9, 13) + s@.subrange(14, 18) + s@.subrange(19, 23)
                + s@.subrange(24, 36),
            is_hex_seq(h.subrange(0, j as int)),
            acc as int == hex_seq_val(h.subrange(0, j as int)),
            (acc as int) < pow(16, j as nat),
        decreases 32 - j,
    {
        proof {
            assert(pow(16, j as nat) <= pow(16, 31)) by {
                vstd::arithmetic::power::lemma_pow_increases(16, j as nat, 31);
            }
            lemma_pow16_128();
        }
        let pos: usize = if j < 8 {
            j
        } else if j < 12 {
            j + 1
        } else if j < 16 {
            j + 2
        } else if j < 20 {
            j + 3
        } else {
            j + 4
        };
        let d = hex_val_of(chars[pos]);
        proof {
            assert(h[j as int] == s@[pos as int]);
        }
        if d >= 16 {
            proof {
                assert(hex_val(h[j as int]) >= 16);
                assert(!is_hex_seq(h));
            }
            return None;
        }
        let prev = acc;
        acc = acc * 16 + (d as u128);
        j = j + 1;
        proof {
            let pre = h.subrange(0, j - 1);
            let cur = h.subrange(0, j as int);
            assert(cur.drop_last() =~= pre);
            assert(cur.last() == h[j - 1]);
            assert(acc as int == hex_seq_val(cur));
            vstd::arithmetic::power::lemma_pow_adds(16, (j - 1) as nat, 1);
            vstd::arithmetic::power::lemma_pow1(16);
            assert(pow(16, j as nat) == 16 * pow(16, (j - 1) as nat));
            assert(prev as int * 16 + hex_val(h[j - 1]) < 16 * pow(16, (j - 1) as nat))
                by (nonlinear_arith)
                requires
                    0 <= (prev as int) < pow(16, (j - 1) as nat),
                    0 <= hex_val(h[j - 1]) < 16,
            ;
            assert forall|i: int| 0 <= i < cur.len() implies hex_val(cur[i]) < 16 by {
                if i < pre.len() {
                    assert(cur[i] == pre[i]);
                }
            }
        }
    }
    proof {
        assert(h.subrange(0, 32) =~= h);
    }
    Some(acc)
}

} // verus!
