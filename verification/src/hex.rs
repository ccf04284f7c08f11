//! Hexadecimal digits: reading an address typed by the user and writing
//! fixed-width lowercase hexadecimal numbers.
use vstd::prelude::*;

verus! {

/// The value of a hexadecimal digit, upper or lower case, if `c` is one.
pub open spec fn hex_digit_value(c: char) -> Option<nat> {
    if '0' <= c && c <= '9' {
        Some((c as nat - '0' as nat) as nat)
    } else if 'a' <= c && c <= 'f' {
        Some((c as nat - 'a' as nat + 10) as nat)
    } else if 'A' <= c && c <= 'F' {
        Some((c as nat - 'A' as nat + 10) as nat)
    } else {
        None
    }
}

/// The number that a string of hexadecimal digits spells, most significant
/// digit first; `None` as soon as one character is not a digit. The empty
/// string spells 0.
pub open spec fn hex_digits_value(s: Seq<char>) -> Option<nat>
    decreases s.len(),
{
    if s.len() == 0 {
        Some(0)
    } else {
        match (hex_digits_value(s.drop_last()), hex_digit_value(s.last())) {
            (Some(high), Some(d)) => Some(high * 16 + d),
            _ => None,
        }
    }
}

/// The digits of a hexadecimal number as typed: a single leading `+` is allowed.
pub open spec fn unsigned_digits(s: Seq<char>) -> Seq<char> {
    if s.len() > 0 && s[0] == '+' {
        s.drop_first()
    } else {
        s
    }
}

/// A 16-bit address written in hexadecimal, the way `u16::from_str_radix(s, 16)`
/// reads it: an optional `+`, then at least one digit of either case, nothing
/// else, and a value that fits in 16 bits.
pub open spec fn parse_hex_u16(s: Seq<char>) -> Option<u16> {
    let digits = unsigned_digits(s);
    if digits.len() == 0 {
        None
    } else {
        match hex_digits_value(digits) {
            Some(v) => if v <= 0xFFFF {
                Some(v as u16)
            } else {
                None
            },
            None => None,
        }
    }
}

/// The lowercase character of a digit below 16.
pub open spec fn hex_char(d: nat) -> char {
    if d < 10 {
        (d + 48) as char
    } else {
        (d - 10 + 97) as char
    }
}

/// A byte as two lowercase hexadecimal digits (`{:02x}`).
pub open spec fn hex2_text(v: u8) -> Seq<char> {
    seq![hex_char((v / 16) as nat), hex_char((v % 16) as nat)]
}

/// A 16-bit number as four lowercase hexadecimal digits (`{:04x}`).
pub open spec fn hex4_text(v: u16) -> Seq<char> {
    seq![
        hex_char((v / 4096) as nat),
        hex_char((v / 256 % 16) as nat),
        hex_char((v / 16 % 16) as nat),
        hex_char((v % 16) as nat),
    ]
}

/// Reads one character as a hexadecimal digit.
pub fn digit_value(c: char) -> (res: Option<u8>)
    ensures
        match hex_digit_value(c) {
            Some(v) => res == Some(v as u8),
            None => res is None,
        },
{
    if '0' <= c && c <= '9' {
        Some((c as u32 - '0' as u32) as u8)
    } else if 'a' <= c && c <= 'f' {
        Some((c as u32 - 'a' as u32 + 10) as u8)
    } else if 'A' <= c && c <= 'F' {
        Some((c as u32 - 'A' as u32 + 10) as u8)
    } else {
        None
    }
}

proof fn lemma_invalid_prefix(s: Seq<char>, k: int)
    requires
        0 <= k <= s.len(),
        hex_digits_value(s.take(k)) is None,
    ensures
        hex_digits_value(s) is None,
    decreases s.len(),
{
    if k < s.len() {
        assert(s.drop_last().take(k) =~= s.take(k));
        lemma_invalid_prefix(s.drop_last(), k);
    } else {
        assert(s.take(k) =~= s);
    }
}

proof fn lemma_value_grows(s: Seq<char>, k: int)
    requires
        0 <= k <= s.len(),
        hex_digits_value(s.take(k)) is Some,
        hex_digits_value(s) is Some,
    ensures
        hex_digits_value(s).unwrap() >= hex_digits_value(s.take(k)).unwrap(),
    decreases s.len(),
{
    if k < s.len() {
        assert(s.drop_last().take(k) =~= s.take(k));
        lemma_value_grows(s.drop_last(), k);
    } else {
        assert(s.take(k) =~= s);
    }
}

/// Reads an address typed in hexadecimal; `None` where the text is no such
/// address.
pub fn parse_address(input: &str) -> (res: Option<u16>)
    ensures
        res == parse_hex_u16(input@),
{
    let n = input.unicode_len();
    let mut start: usize = 0;
    if n > 0 && input.get_char(0) == '+' {
        start = 1;
    }
    let ghost digits = unsigned_digits(input@);
    assert(digits =~= input@.skip(start as int));
    if start == n {
        return None;
    }
    let mut i: usize = start;
    let mut acc: u32 = 0;
    assert(digits.take(0) =~= Seq::<char>::empty());
    while i < n
        invariant
            n == input@.len(),
            start <= i <= n,
            start < n,
            digits == input@.skip(start as int),
            digits == unsigned_digits(input@),
            hex_digits_value(digits.take(i - start)) == Some(acc as nat),
            acc <= 0xFFFF,
        decreases n - i,
    {
        let c = input.get_char(i);
        let ghost j = i - start;
        assert(digits.take(j + 1).drop_last() =~= digits.take(j));
        assert(digits.take(j + 1).last() == c);
        match digit_value(c) {
            None => {
                proof {
                    lemma_invalid_prefix(digits, j + 1);
                }
                return None;
            },
            Some(d) => {
                acc = acc * 16 + d as u32;
                if acc > 0xFFFF {
                    proof {
                        if hex_digits_value(digits) is Some {
                            lemma_value_grows(digits, j + 1);
                        }
                    }
                    return None;
                }
            },
        }
        i = i + 1;
    }
    assert(digits.take(n - start) =~= digits);
    Some(acc as u16)
}

/// The string of one lowercase hexadecimal digit.
fn hex_digit_str(d: u8) -> (res: &'static str)
    requires
        d < 16,
    ensures
        res@ == seq![hex_char(d as nat)],
{
    match d {
        0 => { proof { reveal_strlit("0"); } "0" },
        1 => { proof { reveal_strlit("1"); } "1" },
        2 => { proof { reveal_strlit("2"); } "2" },
        3 => { proof { reveal_strlit("3"); } "3" },
        4 => { proof { reveal_strlit("4"); } "4" },
        5 => { proof { reveal_strlit("5"); } "5" },
        6 => { proof { reveal_strlit("6"); } "6" },
        7 => { proof { reveal_strlit("7"); } "7" },
        8 => { proof { reveal_strlit("8"); } "8" },
        9 => { proof { reveal_strlit("9"); } "9" },
        10 => { proof { reveal_strlit("a"); } "a" },
        11 => { proof { reveal_strlit("b"); } "b" },
        12 => { proof { reveal_strlit("c"); } "c" },
        13 => { proof { reveal_strlit("d"); } "d" },
        14 => { proof { reveal_strlit("e"); } "e" },
        _ => { proof { reveal_strlit("f"); } "f" },
    }
}

/// Appends a byte as two lowercase hexadecimal digits.
pub fn push_hex2(out: &mut String, v: u8)
    ensures
        final(out)@ == old(out)@ + hex2_text(v),
{
    out.append(hex_digit_str(v / 16));
    out.append(hex_digit_str(v % 16));
    assert(final(out)@ =~= old(out)@ + hex2_text(v));
}

/// Appends a 16-bit number as four lowercase hexadecimal digits.
pub fn push_hex4(out: &mut String, v: u16)
    ensures
        final(out)@ == old(out)@ + hex4_text(v),
{
    out.append(hex_digit_str((v / 4096) as u8));
    out.append(hex_digit_str((v / 256 % 16) as u8));
    out.append(hex_digit_str((v / 16 % 16) as u8));
    out.append(hex_digit_str((v % 16) as u8));
    assert(final(out)@ =~= old(out)@ + hex4_text(v));
}

proof fn lemma_hex_char_value(d: nat)
    requires
        d < 16,
    ensures
        hex_digit_value(hex_char(d)) == Some(d),
{
}

/// Reading back what `push_hex4` writes gives the number that was written:
/// every address the debugger prints can be typed back in as it stands.
pub proof fn lemma_hex4_round_trip(v: u16)
    ensures
        parse_hex_u16(hex4_text(v)) == Some(v),
{
    let s = hex4_text(v);
    let d3 = (v / 4096) as nat;
    let d2 = (v / 256 % 16) as nat;
    let d1 = (v / 16 % 16) as nat;
    let d0 = (v % 16) as nat;
    lemma_hex_char_value(d3);
    lemma_hex_char_value(d2);
    lemma_hex_char_value(d1);
    lemma_hex_char_value(d0);
    assert(unsigned_digits(s) == s);
    assert(s.drop_last().drop_last().drop_last().drop_last() =~= Seq::<char>::empty());
    assert(s.drop_last().drop_last().drop_last() =~= seq![hex_char(d3)]);
    assert(s.drop_last().drop_last() =~= seq![hex_char(d3), hex_char(d2)]);
    assert(s.drop_last() =~= seq![hex_char(d3), hex_char(d2), hex_char(d1)]);
    let s1 = s.drop_last().drop_last().drop_last();
    assert(s1.last() == hex_char(d3));
    assert(hex_digits_value(s1.drop_last()) == Some(0nat));
    assert(hex_digits_value(s1) == Some(d3));
    assert(hex_digits_value(s.drop_last().drop_last()) == Some(d3 * 16 + d2));
    assert(hex_digits_value(s.drop_last()) == Some((d3 * 16 + d2) * 16 + d1));
    assert(hex_digits_value(s) == Some(((d3 * 16 + d2) * 16 + d1) * 16 + d0));
    assert(((d3 * 16 + d2) * 16 + d1) * 16 + d0 == v) by (nonlinear_arith)
        requires
            d3 == v / 4096,
            d2 == v / 256 % 16,
            d1 == v / 16 % 16,
            d0 == v % 16,
            v <= 0xFFFF,
    ;
}

/// The character of a digit below 16, in lower or upper case.
pub open spec fn hex_char_in_case(d: nat, upper: bool) -> char {
    if d < 10 {
        (d + 48) as char
    } else if upper {
        (d - 10 + 65) as char
    } else {
        (d - 10 + 97) as char
    }
}

/// The hexadecimal digits of `v` without leading zeros, `0` for zero, as
/// `{:x}` (lower case) or `{:X}` (upper case) writes them.
pub open spec fn hex_digits(v: nat, upper: bool) -> Seq<char>
    decreases v,
{
    if v < 16 {
        seq![hex_char_in_case(v, upper)]
    } else {
        hex_digits(v / 16, upper).push(hex_char_in_case(v % 16, upper))
    }
}

/// `v` in hexadecimal, padded in front with zeros to `width` characters,
/// as `{:0width$x}` or `{:0width$X}` writes it; `width` 0 is no padding.
pub open spec fn hex_formatted(v: nat, upper: bool, width: nat) -> Seq<char> {
    let d = hex_digits(v, upper);
    if d.len() >= width {
        d
    } else {
        Seq::new((width - d.len()) as nat, |i: int| '0') + d
    }
}

proof fn lemma_char_in_case_value(d: nat, upper: bool)
    requires
        d < 16,
    ensures
        hex_digit_value(hex_char_in_case(d, upper)) == Some(d),
{
}

proof fn lemma_hex_digits_value(v: nat, upper: bool)
    ensures
        hex_digits(v, upper).len() >= 1,
        hex_digits_value(hex_digits(v, upper)) == Some(v),
    decreases v,
{
    let d = hex_digits(v, upper);
    if v < 16 {
        lemma_char_in_case_value(v, upper);
        assert(d.drop_last() =~= Seq::<char>::empty());
        assert(hex_digits_value(d.drop_last()) == Some(0nat));
        assert(d.last() == hex_char_in_case(v, upper));
        assert(hex_digits_value(d) == Some(0nat * 16 + v));
    } else {
        lemma_char_in_case_value(v % 16, upper);
        lemma_hex_digits_value(v / 16, upper);
        assert(d.drop_last() =~= hex_digits(v / 16, upper));
        assert(d.last() == hex_char_in_case(v % 16, upper));
        assert(hex_digits_value(d) == Some((v / 16) * 16 + v % 16));
        assert((v / 16) * 16 + v % 16 == v);
    }
}

proof fn lemma_zeros_value(k: nat)
    ensures
        hex_digits_value(Seq::new(k, |i: int| '0')) == Some(0nat),
    decreases k,
{
    if k > 0 {
        lemma_zeros_value((k - 1) as nat);
        assert(Seq::new(k, |i: int| '0').drop_last() =~= Seq::new((k - 1) as nat, |i: int| '0'));
    }
}

proof fn lemma_leading_zeros(k: nat, s: Seq<char>)
    requires
        hex_digits_value(s) is Some,
    ensures
        hex_digits_value(Seq::new(k, |i: int| '0') + s) == hex_digits_value(s),
    decreases s.len(),
{
    let z = Seq::new(k, |i: int| '0');
    if s.len() == 0 {
        lemma_zeros_value(k);
        assert(z + s =~= z);
    } else {
        lemma_leading_zeros(k, s.drop_last());
        assert((z + s).drop_last() =~= z + s.drop_last());
        assert((z + s).last() == s.last());
    }
}

proof fn lemma_first_is_digit(s: Seq<char>)
    requires
        s.len() >= 1,
        hex_digits_value(s) is Some,
    ensures
        hex_digit_value(s[0]) is Some,
    decreases s.len(),
{
    if s.len() > 1 {
        lemma_first_is_digit(s.drop_last());
        assert(s.drop_last()[0] == s[0]);
    }
}

/// Every way of writing an address in hexadecimal that Rust's formatting
/// offers reads back as that address: lower or upper case, unpadded or
/// padded with zeros to any width.
pub proof fn lemma_formatted_round_trip(v: u16, upper: bool, width: nat)
    ensures
        parse_hex_u16(hex_formatted(v as nat, upper, width)) == Some(v),
{
    let d = hex_digits(v as nat, upper);
    lemma_hex_digits_value(v as nat, upper);
    let f = hex_formatted(v as nat, upper, width);
    if d.len() < width {
        lemma_leading_zeros((width - d.len()) as nat, d);
    }
    lemma_first_is_digit(f);
    assert(unsigned_digits(f) == f);
}

/// A byte written as two digits reads back as that byte.
pub proof fn lemma_hex2_round_trip(v: u8)
    ensures
        parse_hex_u16(hex2_text(v)) == Some(v as u16),
{
    let s = hex2_text(v);
    let d1 = (v / 16) as nat;
    let d0 = (v % 16) as nat;
    lemma_hex_char_value(d1);
    lemma_hex_char_value(d0);
    assert(unsigned_digits(s) == s);
    assert(s.drop_last().drop_last() =~= Seq::<char>::empty());
    let s1 = s.drop_last();
    assert(s1 =~= seq![hex_char(d1)]);
    assert(s1.last() == hex_char(d1));
    assert(s1.drop_last() =~= Seq::<char>::empty());
    assert(hex_digits_value(s1.drop_last()) == Some(0nat));
    assert(hex_digits_value(s1) == Some(0nat * 16 + d1));
    assert(hex_digits_value(s) == Some(d1 * 16 + d0));
}

/// A character that is no hexadecimal digit, anywhere but as the one
/// leading `+`, makes the text no address.
pub proof fn lemma_non_digit_rejected(s: Seq<char>, i: int)
    requires
        0 <= i < s.len(),
        hex_digit_value(s[i]) is None,
        !(i == 0 && s[0] == '+'),
    ensures
        parse_hex_u16(s) is None,
{
    let d = unsigned_digits(s);
    let j = if s.len() > 0 && s[0] == '+' { i - 1 } else { i };
    assert(d[j] == s[i]);
    assert(d.take(j + 1).drop_last() =~= d.take(j));
    assert(d.take(j + 1).last() == s[i]);
    lemma_invalid_prefix(d, j + 1);
}

/// Whatever the text, an address read from it has digits worth exactly
/// that address, and nothing above 0xFFFF is read.
pub proof fn lemma_parsed_value(s: Seq<char>)
    ensures
        parse_hex_u16(s) matches Some(v) ==> unsigned_digits(s).len() > 0 && hex_digits_value(
            unsigned_digits(s),
        ) == Some(v as nat),
        parse_hex_u16(s) is Some <==> (unsigned_digits(s).len() > 0 && hex_digits_value(
            unsigned_digits(s),
        ) is Some && hex_digits_value(unsigned_digits(s)).unwrap() <= 0xFFFF),
{
}

} // verus!
