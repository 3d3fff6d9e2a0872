//! The message renderer: UTF-16 decoding, whitespace trimming and the
//! hexadecimal fallback.

use vstd::prelude::*;

verus! {

/// True of the characters with the Unicode `White_Space` property.
pub open spec fn is_unicode_ws(c: char) -> bool {
    let v = c as u32;
    (0x09 <= v && v <= 0x0D) || v == 0x20 || v == 0x85 || v == 0xA0 || v == 0x1680 || (0x2000
        <= v && v <= 0x200A) || v == 0x2028 || v == 0x2029 || v == 0x202F || v == 0x205F || v
        == 0x3000
}

/// Decides whether a character has the Unicode `White_Space` property.
pub fn is_ws_char(c: char) -> (r: bool)
    ensures
        r == is_unicode_ws(c),
{
    let v: u32 = c as u32;
    (0x09 <= v && v <= 0x0D) || v == 0x20 || v == 0x85 || v == 0xA0 || v == 0x1680 || (0x2000
        <= v && v <= 0x200A) || v == 0x2028 || v == 0x2029 || v == 0x202F || v == 0x205F || v
        == 0x3000
}

/// The Unicode replacement character, written for every code unit or
/// surrogate pair that does not decode to a scalar value.
pub const REPLACEMENT: char = '\u{FFFD}';

/// True of the leading (high) half of a UTF-16 surrogate pair.
pub open spec fn is_high_surrogate(u: u16) -> bool {
    0xD800 <= u && u <= 0xDBFF
}

/// True of the trailing (low) half of a UTF-16 surrogate pair.
pub open spec fn is_low_surrogate(u: u16) -> bool {
    0xDC00 <= u && u <= 0xDFFF
}

/// The scalar value a UTF-16 surrogate pair encodes.
pub open spec fn surrogate_pair_char(hi: u16, lo: u16) -> char
    recommends
        is_high_surrogate(hi),
        is_low_surrogate(lo),
{
    (0x10000 + (hi - 0xD800) * 0x400 + (lo - 0xDC00)) as char
}

/// The UTF-16 decoding of a code-unit sequence, with every unpaired
/// surrogate replaced by [`REPLACEMENT`]: a high surrogate followed by a low
/// surrogate decodes as a pair to one supplementary character; any other
/// surrogate yields one replacement character; every remaining unit is its
/// own character.
pub open spec fn decoded(units: Seq<u16>) -> Seq<char>
    decreases units.len(),
{
    if units.len() == 0 {
        Seq::<char>::empty()
    } else if is_high_surrogate(units[0]) && units.len() >= 2 && is_low_surrogate(units[1]) {
        seq![surrogate_pair_char(units[0], units[1])] + decoded(units.skip(2))
    } else if is_high_surrogate(units[0]) || is_low_surrogate(units[0]) {
        seq![REPLACEMENT] + decoded(units.skip(1))
    } else {
        seq![(units[0] as char)] + decoded(units.skip(1))
    }
}

/// A decoded sequence never holds more characters than there were code
/// units: each step consumes at least one unit per character written.
pub proof fn lemma_decoded_len(units: Seq<u16>)
    ensures
        decoded(units).len() <= units.len(),
    decreases units.len(),
{
    if units.len() == 0 {
    } else if is_high_surrogate(units[0]) && units.len() >= 2 && is_low_surrogate(units[1]) {
        lemma_decoded_len(units.skip(2));
    } else {
        lemma_decoded_len(units.skip(1));
    }
}

/// Relies on `char::from_u32`: it returns the character of the given code
/// point exactly when the value is a Unicode scalar value (below the
/// surrogate range, or between `0xE000` and `0x10FFFF`), and `None`
/// otherwise.
pub assume_specification [ char::from_u32 ](v: u32) -> (r: Option<char>)
    ensures
        r == (if v < 0xD800 || (0xE000 <= v && v <= 0x10FFFF) {
            Some(v as char)
        } else {
            None::<char>
        }),
;

/// Decodes a UTF-16 code-unit sequence, substituting [`REPLACEMENT`] for
/// every unpaired surrogate; decoding never fails.
pub fn decode_utf16_lossy(units: &Vec<u16>) -> (out: Vec<char>)
    ensures
        out@ == decoded(units@),
        out@.len() <= units@.len(),
{
    let ghost all: Seq<u16> = units@;
    let mut out: Vec<char> = Vec::new();
    let mut i: usize = 0;
    proof {
        assert(all.skip(0) =~= all);
    }
    while i < units.len()
        invariant
            i <= units@.len(),
            units@ == all,
            decoded(all) == out@ + decoded(all.skip(i as int)),
            out@.len() <= i,
        decreases units@.len() - i,
    {
        let ghost rest: Seq<u16> = all.skip(i as int);
        proof {
            assert(rest.len() == all.len() - i);
            assert(rest[0] == all[i as int]);
        }
        let u: u16 = units[i];
        if 0xD800 <= u && u <= 0xDBFF {
            if i + 1 < units.len() && 0xDC00 <= units[i + 1] && units[i + 1] <= 0xDFFF {
                let lo: u16 = units[i + 1];
                proof {
                    assert(rest[1] == all[i + 1]);
                }
                let scalar: u32 = 0x10000 + ((u as u32) - 0xD800) * 0x400 + ((lo as u32) - 0xDC00);
                let c: char = char::from_u32(scalar).unwrap();
                out.push(c);
                proof {
                    assert(c == surrogate_pair_char(rest[0], rest[1]));
                    assert(rest.skip(2) =~= all.skip(i + 2));
                    assert(decoded(rest) == seq![c] + decoded(all.skip(i + 2)));
                    assert(out@ + decoded(all.skip(i + 2)) =~= decoded(all));
                }
                i = i + 2;
            } else {
                out.push(REPLACEMENT);
                proof {
                    assert(rest.skip(1) =~= all.skip(i + 1));
                    assert(decoded(rest) == seq![REPLACEMENT] + decoded(all.skip(i + 1)));
                    assert(out@ + decoded(all.skip(i + 1)) =~= decoded(all));
                }
                i = i + 1;
            }
        } else if 0xDC00 <= u && u <= 0xDFFF {
            out.push(REPLACEMENT);
            proof {
                assert(rest.skip(1) =~= all.skip(i + 1));
                assert(decoded(rest) == seq![REPLACEMENT] + decoded(all.skip(i + 1)));
                assert(out@ + decoded(all.skip(i + 1)) =~= decoded(all));
            }
            i = i + 1;
        } else {
            let c: char = char::from_u32(u as u32).unwrap();
            out.push(c);
            proof {
                assert(c == (rest[0] as char));
                assert(rest.skip(1) =~= all.skip(i + 1));
                assert(decoded(rest) == seq![c] + decoded(all.skip(i + 1)));
                assert(out@ + decoded(all.skip(i + 1)) =~= decoded(all));
            }
            i = i + 1;
        }
    }
    proof {
        assert(all.skip(i as int) =~= Seq::<u16>::empty());
        assert(decoded(all) =~= out@);
    }
    out
}

/// The uppercase hexadecimal digit for a value below 16.
pub open spec fn hex_digit(v: u32) -> char
    recommends
        v < 16,
{
    if v < 10 {
        (0x30 + v) as char
    } else {
        (0x37 + v) as char
    }
}

/// The hexadecimal literal for a 32-bit code: `0x` followed by eight
/// uppercase hexadecimal digits, zero-padded.
pub open spec fn hex_chars(code: u32) -> Seq<char> {
    seq![
        '0',
        'x',
        hex_digit((code >> 28) & 0xF),
        hex_digit((code >> 24) & 0xF),
        hex_digit((code >> 20) & 0xF),
        hex_digit((code >> 16) & 0xF),
        hex_digit((code >> 12) & 0xF),
        hex_digit((code >> 8) & 0xF),
        hex_digit((code >> 4) & 0xF),
        hex_digit(code & 0xF),
    ]
}

/// Renders one uppercase hexadecimal digit.
fn hex_digit_char(v: u32) -> (c: char)
    requires
        v < 16,
    ensures
        c == hex_digit(v),
{
    if v < 10 {
        ((0x30 + v) as u8) as char
    } else {
        ((0x37 + v) as u8) as char
    }
}

/// Renders a 32-bit code as its hexadecimal literal, `0x` followed by
/// eight uppercase digits, zero-padded.
pub fn hex_literal_chars(code: u32) -> (out: Vec<char>)
    ensures
        out@ == hex_chars(code),
{
    assert(((code >> 28) & 0xF) < 16 && ((code >> 24) & 0xF) < 16 && ((code >> 20) & 0xF) < 16 && ((
    code >> 16) & 0xF) < 16 && ((code >> 12) & 0xF) < 16 && ((code >> 8) & 0xF) < 16 && ((code >> 4)
        & 0xF) < 16 && (code & 0xF) < 16) by (bit_vector);
    let mut out: Vec<char> = Vec::new();
    out.push('0');
    out.push('x');
    out.push(hex_digit_char((code >> 28) & 0xF));
    out.push(hex_digit_char((code >> 24) & 0xF));
    out.push(hex_digit_char((code >> 20) & 0xF));
    out.push(hex_digit_char((code >> 16) & 0xF));
    out.push(hex_digit_char((code >> 12) & 0xF));
    out.push(hex_digit_char((code >> 8) & 0xF));
    out.push(hex_digit_char((code >> 4) & 0xF));
    out.push(hex_digit_char(code & 0xF));
    assert(out@ =~= hex_chars(code));
    out
}

/// The sequence with its leading whitespace removed.
pub open spec fn trim_front(s: Seq<char>) -> Seq<char>
    decreases s.len(),
{
    if s.len() > 0 && is_unicode_ws(s[0]) {
        trim_front(s.skip(1))
    } else {
        s
    }
}

/// The sequence with its trailing whitespace removed.
pub open spec fn trim_back(s: Seq<char>) -> Seq<char>
    decreases s.len(),
{
    if s.len() > 0 && is_unicode_ws(s.last()) {
        trim_back(s.drop_last())
    } else {
        s
    }
}

/// The sequence with both leading and trailing whitespace removed.
pub open spec fn trimmed(s: Seq<char>) -> Seq<char> {
    trim_back(trim_front(s))
}

/// Trimming the front never lengthens a sequence, and when anything is
/// left its first character is not whitespace.
pub proof fn lemma_trim_front_props(s: Seq<char>)
    ensures
        trim_front(s).len() <= s.len(),
        trim_front(s).len() > 0 ==> !is_unicode_ws(trim_front(s)[0]),
    decreases s.len(),
{
    if s.len() > 0 && is_unicode_ws(s[0]) {
        lemma_trim_front_props(s.skip(1));
    }
}

/// Trimming the back never lengthens a sequence; when anything is left its
/// last character is not whitespace and its first character is the
/// sequence's own first character.
pub proof fn lemma_trim_back_props(s: Seq<char>)
    ensures
        trim_back(s).len() <= s.len(),
        trim_back(s).len() > 0 ==> !is_unicode_ws(trim_back(s).last()),
        trim_back(s).len() > 0 ==> trim_back(s)[0] == s[0],
    decreases s.len(),
{
    if s.len() > 0 && is_unicode_ws(s.last()) {
        lemma_trim_back_props(s.drop_last());
    }
}

/// A sequence of nothing but whitespace trims from the front to nothing.
pub proof fn lemma_trim_front_all_ws(s: Seq<char>)
    requires
        forall|i: int| 0 <= i < s.len() ==> is_unicode_ws(s[i]),
    ensures
        trim_front(s) == Seq::<char>::empty(),
    decreases s.len(),
{
    if s.len() > 0 {
        lemma_trim_front_all_ws(s.skip(1));
    } else {
        assert(s =~= Seq::<char>::empty());
    }
}

/// A sequence holding a non-whitespace character keeps one through
/// front-trimming.
proof fn lemma_trim_front_keeps_non_ws(s: Seq<char>)
    requires
        exists|i: int| 0 <= i < s.len() && !is_unicode_ws(s[i]),
    ensures
        exists|i: int| 0 <= i < trim_front(s).len() && !is_unicode_ws(trim_front(s)[i]),
    decreases s.len(),
{
    if s.len() > 0 && is_unicode_ws(s[0]) {
        let w = choose|i: int| 0 <= i < s.len() && !is_unicode_ws(s[i]);
        assert(0 <= w - 1 < s.skip(1).len() && !is_unicode_ws(s.skip(1)[w - 1]));
        lemma_trim_front_keeps_non_ws(s.skip(1));
        let j = choose|i: int|
            0 <= i < trim_front(s.skip(1)).len() && !is_unicode_ws(trim_front(s.skip(1))[i]);
        assert(0 <= j < trim_front(s).len() && !is_unicode_ws(trim_front(s)[j]));
    } else {
        let w = choose|i: int| 0 <= i < s.len() && !is_unicode_ws(s[i]);
        assert(0 <= w < trim_front(s).len() && !is_unicode_ws(trim_front(s)[w]));
    }
}

/// A sequence holding a non-whitespace character keeps one through
/// back-trimming.
proof fn lemma_trim_back_keeps_non_ws(s: Seq<char>)
    requires
        exists|i: int| 0 <= i < s.len() && !is_unicode_ws(s[i]),
    ensures
        exists|i: int| 0 <= i < trim_back(s).len() && !is_unicode_ws(trim_back(s)[i]),
    decreases s.len(),
{
    if s.len() > 0 && is_unicode_ws(s.last()) {
        let w = choose|i: int| 0 <= i < s.len() && !is_unicode_ws(s[i]);
        assert(0 <= w < s.drop_last().len() && !is_unicode_ws(s.drop_last()[w]));
        lemma_trim_back_keeps_non_ws(s.drop_last());
        let j = choose|i: int|
            0 <= i < trim_back(s.drop_last()).len() && !is_unicode_ws(trim_back(s.drop_last())[i]);
        assert(0 <= j < trim_back(s).len() && !is_unicode_ws(trim_back(s)[j]));
    } else {
        let w = choose|i: int| 0 <= i < s.len() && !is_unicode_ws(s[i]);
        assert(0 <= w < trim_back(s).len() && !is_unicode_ws(trim_back(s)[w]));
    }
}

/// Removes leading and trailing whitespace from a character sequence,
/// without reordering or changing what stands between.
pub fn trim_whitespace(chars: &Vec<char>) -> (out: Vec<char>)
    ensures
        out@ == trimmed(chars@),
{
    let ghost s: Seq<char> = chars@;
    let mut start: usize = 0;
    proof {
        assert(s.skip(0) =~= s);
    }
    while start < chars.len() && is_ws_char(chars[start])
        invariant
            start <= s.len(),
            chars@ == s,
            trim_front(s) == trim_front(s.skip(start as int)),
        decreases s.len() - start,
    {
        proof {
            assert(s.skip(start as int)[0] == s[start as int]);
            assert(s.skip(start as int).skip(1) =~= s.skip(start + 1));
        }
        start = start + 1;
    }
    proof {
        if start == s.len() {
            assert(s.skip(start as int) =~= Seq::<char>::empty());
        } else {
            assert(s.skip(start as int)[0] == s[start as int]);
        }
    }
    // Here trim_front(s) == s.skip(start), the empty sequence included.
    let mut end: usize = chars.len();
    proof {
        assert(s.subrange(start as int, end as int) =~= s.skip(start as int));
    }
    while end > start && is_ws_char(chars[end - 1])
        invariant
            start <= end <= s.len(),
            chars@ == s,
            trim_front(s) == s.skip(start as int),
            trim_back(s.skip(start as int)) == trim_back(s.subrange(start as int, end as int)),
        decreases end,
    {
        proof {
            let sub = s.subrange(start as int, end as int);
            assert(sub.last() == s[end - 1]);
            assert(sub.drop_last() =~= s.subrange(start as int, end - 1));
        }
        end = end - 1;
    }
    proof {
        let sub = s.subrange(start as int, end as int);
        if end == start {
            assert(sub =~= Seq::<char>::empty());
        } else {
            assert(sub.last() == s[end - 1]);
        }
        assert(trimmed(s) == s.subrange(start as int, end as int));
    }
    let mut out: Vec<char> = Vec::new();
    let mut k: usize = start;
    while k < end
        invariant
            start <= k <= end <= s.len(),
            chars@ == s,
            out@ =~= s.subrange(start as int, k as int),
        decreases end - k,
    {
        out.push(chars[k]);
        k = k + 1;
    }
    proof {
        assert(out@ =~= trimmed(s));
    }
    out
}

/// The text displayed for a code given the OS message-table reply: an empty
/// reply (the table knows no message for the code) renders as the
/// hexadecimal literal of the code; any other reply is decoded from UTF-16
/// and trimmed of surrounding whitespace.
pub open spec fn rendered(code: u32, units: Seq<u16>) -> Seq<char> {
    if units.len() == 0 {
        hex_chars(code)
    } else {
        trimmed(decoded(units))
    }
}

/// Renders the display text of an error code from the OS message-table
/// reply, handed over as the UTF-16 code units the OS wrote (empty when the
/// lookup failed). Rendering itself never fails: an unknown code falls back
/// to the hexadecimal literal of the raw code.
pub fn render_message(code: u32, units: &Vec<u16>) -> (out: Vec<char>)
    ensures
        out@ == rendered(code, units@),
        units@.len() <= 1024 ==> out@.len() <= 1024,
{
    if units.len() == 0 {
        hex_literal_chars(code)
    } else {
        let chars = decode_utf16_lossy(units);
        let out = trim_whitespace(&chars);
        proof {
            lemma_trim_front_props(decoded(units@));
            lemma_trim_back_props(trim_front(decoded(units@)));
        }
        out
    }
}

/// A code the OS message table does not know (an empty reply) renders as
/// exactly the hexadecimal literal of the raw code: `0x` and eight
/// uppercase, zero-padded hexadecimal digits.
pub proof fn lemma_unknown_code_renders_hex(code: u32)
    ensures
        rendered(code, Seq::<u16>::empty()) == hex_chars(code),
        rendered(code, Seq::<u16>::empty()).len() == 10,
{
    assert(hex_chars(code).len() == 10);
}

/// The rendered text never exceeds the unit count of a non-empty reply, so
/// a reply within the 1024-unit buffer renders to at most 1024 scalar
/// values; the hexadecimal fallback is 10 scalars long.
pub proof fn lemma_render_bounded(code: u32, units: Seq<u16>)
    requires
        units.len() <= 1024,
    ensures
        rendered(code, units).len() <= 1024,
{
    if units.len() == 0 {
        assert(hex_chars(code).len() == 10);
    } else {
        lemma_decoded_len(units);
        lemma_trim_front_props(decoded(units));
        lemma_trim_back_props(trim_front(decoded(units)));
    }
}

/// A reply whose decoded text is nothing but whitespace renders as the
/// empty text.
pub proof fn lemma_all_whitespace_renders_empty(code: u32, units: Seq<u16>)
    requires
        units.len() > 0,
        forall|i: int| 0 <= i < decoded(units).len() ==> is_unicode_ws(decoded(units)[i]),
    ensures
        rendered(code, units) == Seq::<char>::empty(),
{
    lemma_trim_front_all_ws(decoded(units));
}

/// The rendered text of a non-empty reply carries no leading or trailing
/// whitespace, and is non-empty whenever the decoded reply holds any
/// non-whitespace character at all.
pub proof fn lemma_render_trimmed(code: u32, units: Seq<u16>)
    requires
        units.len() > 0,
    ensures
        rendered(code, units).len() > 0 ==> !is_unicode_ws(rendered(code, units)[0]),
        rendered(code, units).len() > 0 ==> !is_unicode_ws(rendered(code, units).last()),
        (exists|i: int|
            0 <= i < decoded(units).len() && !is_unicode_ws(decoded(units)[i])) ==> rendered(
            code,
            units,
        ).len() > 0,
{
    let d = decoded(units);
    lemma_trim_front_props(d);
    lemma_trim_back_props(trim_front(d));
    if exists|i: int| 0 <= i < d.len() && !is_unicode_ws(d[i]) {
        lemma_trim_front_keeps_non_ws(d);
        lemma_trim_back_keeps_non_ws(trim_front(d));
    }
}

} // verus!
