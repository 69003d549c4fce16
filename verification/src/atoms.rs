//! Inspection of layout atoms: classification of zero-width and modifier
//! characters, per-atom display widths, and Unicode code-point labels.

use vstd::prelude::*;

use crate::oracle::{width_of, width_with_policy};
use crate::policy::PolicyKind;
use crate::text::chars_to_string;
use crate::text::str_to_chars;

verus! {

/// A one-character string with the given code point.
pub open spec fn is_single(s: Seq<char>, code: u32) -> bool {
    s.len() == 1 && s[0] as u32 == code
}

/// Whether the atom is a Zero Width Joiner.
pub fn is_zwj(s: &str) -> (r: bool)
    ensures
        r == is_single(s@, 0x200D),
{
    s.unicode_len() == 1 && s.get_char(0) as u32 == 0x200D
}

/// Whether the atom is the emoji variation selector (VS16).
pub fn is_emoji_vs(s: &str) -> (r: bool)
    ensures
        r == is_single(s@, 0xFE0F),
{
    s.unicode_len() == 1 && s.get_char(0) as u32 == 0xFE0F
}

/// Whether the atom is the combining enclosing keycap.
pub fn is_combining_mark(s: &str) -> (r: bool)
    ensures
        r == is_single(s@, 0x20E3),
{
    s.unicode_len() == 1 && s.get_char(0) as u32 == 0x20E3
}

/// A Fitzpatrick skin-tone modifier.
pub open spec fn is_skin_tone(s: Seq<char>) -> bool {
    s.len() == 1 && 0x1F3FB <= s[0] as u32 && s[0] as u32 <= 0x1F3FF
}

/// Whether the atom is a Fitzpatrick skin-tone modifier.
pub fn is_skin_tone_modifier(s: &str) -> (r: bool)
    ensures
        r == is_skin_tone(s@),
{
    if s.unicode_len() != 1 {
        return false;
    }
    let c = s.get_char(0) as u32;
    0x1F3FB <= c && c <= 0x1F3FF
}

/// A hair or beard component emoji.
pub open spec fn is_hair(s: Seq<char>) -> bool {
    s.len() == 1 && 0x1F9B0 <= s[0] as u32 && s[0] as u32 <= 0x1F9B3
}

/// Whether the atom is a hair/appearance component emoji.
pub fn is_hair_component(s: &str) -> (r: bool)
    ensures
        r == is_hair(s@),
{
    if s.unicode_len() != 1 {
        return false;
    }
    let c = s.get_char(0) as u32;
    0x1F9B0 <= c && c <= 0x1F9B3
}

/// A zero-width marker: joiner, emoji variation selector, or enclosing
/// keycap.
pub open spec fn is_zero_width_marker(s: Seq<char>) -> bool {
    is_single(s, 0x200D) || is_single(s, 0xFE0F) || is_single(s, 0x20E3)
}

/// The visual fallback shown for an atom: zero-width markers render as `''`.
pub open spec fn spec_display_char(s: Seq<char>) -> Seq<char> {
    if is_zero_width_marker(s) {
        "''"@
    } else {
        s
    }
}

/// The visual fallback for a non-printable atom.
pub fn display_char(s: &str) -> (r: &str)
    ensures
        r@ == spec_display_char(s@),
{
    if is_zwj(s) || is_emoji_vs(s) || is_combining_mark(s) {
        "''"
    } else {
        s
    }
}

/// The display width an atom is reported with: zero-width markers count 0,
/// skin-tone and hair modifiers count 2, and anything else its terminal
/// display width.
pub open spec fn spec_measured_width(s: Seq<char>) -> nat {
    if is_zero_width_marker(s) {
        0
    } else if is_skin_tone(s) || is_hair(s) {
        2
    } else {
        width_of(PolicyKind::Terminal, s)
    }
}

/// Measure an atom's reported display width.
pub fn measured_width(s: &str) -> (r: usize)
    ensures
        r == spec_measured_width(s@),
        r <= 2 * s@.len(),
{
    if is_zwj(s) || is_emoji_vs(s) || is_combining_mark(s) {
        0
    } else if is_skin_tone_modifier(s) || is_hair_component(s) {
        2
    } else {
        width_with_policy(s, PolicyKind::Terminal)
    }
}

/// The uppercase hexadecimal digit characters of a non-negative number.
pub open spec fn hex_digit_char(d: int) -> char {
    if d == 1 {
        '1'
    } else if d == 2 {
        '2'
    } else if d == 3 {
        '3'
    } else if d == 4 {
        '4'
    } else if d == 5 {
        '5'
    } else if d == 6 {
        '6'
    } else if d == 7 {
        '7'
    } else if d == 8 {
        '8'
    } else if d == 9 {
        '9'
    } else if d == 10 {
        'A'
    } else if d == 11 {
        'B'
    } else if d == 12 {
        'C'
    } else if d == 13 {
        'D'
    } else if d == 14 {
        'E'
    } else if d == 15 {
        'F'
    } else {
        '0'
    }
}

pub open spec fn hex_digits(n: int) -> Seq<char>
    recommends
        n >= 0,
    decreases n,
{
    if n < 16 {
        seq![hex_digit_char(n)]
    } else {
        hex_digits(n / 16).push(hex_digit_char(n % 16))
    }
}

/// A run of `n` zero characters.
pub open spec fn zero_chars(n: int) -> Seq<char>
    decreases n,
{
    if n <= 0 {
        Seq::empty()
    } else {
        zero_chars(n - 1).push('0')
    }
}

/// Hexadecimal digits left-padded with zeros to at least four digits.
pub open spec fn pad_hex4(ds: Seq<char>) -> Seq<char> {
    if ds.len() >= 4 {
        ds
    } else {
        zero_chars(4 - ds.len()) + ds
    }
}

/// The `U+XXXX` label of one code point.
pub open spec fn codepoint_label(c: char) -> Seq<char> {
    seq!['U', '+'] + pad_hex4(hex_digits(c as u32 as int))
}

/// The space-separated `U+XXXX` labels of a string's code points.
pub open spec fn unicode_labels(s: Seq<char>) -> Seq<char>
    decreases s.len(),
{
    if s.len() == 0 {
        Seq::empty()
    } else if s.len() == 1 {
        codepoint_label(s[0])
    } else {
        codepoint_label(s[0]) + seq![' '] + unicode_labels(s.drop_first())
    }
}

proof fn lemma_hex_len(n: int)
    requires
        n >= 0,
    ensures
        n < 16 ==> hex_digits(n).len() == 1,
        16 <= n < 256 ==> hex_digits(n).len() == 2,
        256 <= n < 4096 ==> hex_digits(n).len() == 3,
        n >= 4096 ==> hex_digits(n).len() >= 4,
    decreases n,
{
    if n >= 16 {
        lemma_hex_len(n / 16);
    }
}

proof fn lemma_labels_push(t: Seq<char>, c: char)
    ensures
        unicode_labels(t.push(c)) == (if t.len() == 0 {
            codepoint_label(c)
        } else {
            unicode_labels(t) + seq![' '] + codepoint_label(c)
        }),
    decreases t.len(),
{
    let p = t.push(c);
    if t.len() == 0 {
        assert(p.len() == 1);
        assert(p[0] == c);
        assert(unicode_labels(p) == codepoint_label(c));
    } else {
        assert(p.len() >= 2);
        assert(p[0] == t[0]);
        assert(p.drop_first() =~= t.drop_first().push(c));
        lemma_labels_push(t.drop_first(), c);
        if t.len() == 1 {
            assert(unicode_labels(t.drop_first().push(c)) == codepoint_label(c));
            assert(unicode_labels(t) == codepoint_label(t[0]));
            assert(unicode_labels(p) =~= unicode_labels(t) + seq![' '] + codepoint_label(c));
        } else {
            assert(unicode_labels(p) =~= unicode_labels(t) + seq![' '] + codepoint_label(c));
        }
    }
}

/// The digit for one hexadecimal place.
fn hex_char(d: u32) -> (c: char)
    requires
        d < 16,
    ensures
        c == hex_digit_char(d as int),
{
    match d {
        0 => '0',
        1 => '1',
        2 => '2',
        3 => '3',
        4 => '4',
        5 => '5',
        6 => '6',
        7 => '7',
        8 => '8',
        9 => '9',
        10 => 'A',
        11 => 'B',
        12 => 'C',
        13 => 'D',
        14 => 'E',
        _ => 'F',
    }
}

/// Append the hexadecimal digits of `n`.
fn push_hex(out: &mut Vec<char>, n: u32)
    ensures
        final (out)@ == old(out)@ + hex_digits(n as int),
    decreases n,
{
    if n < 16 {
        out.push(hex_char(n));
        proof {
            assert(old(out)@ + hex_digits(n as int) =~= old(out)@.push(hex_digit_char(n as int)));
        }
    } else {
        push_hex(out, n / 16);
        out.push(hex_char(n % 16));
        proof {
            assert(old(out)@ + hex_digits(n as int) =~= (old(out)@ + hex_digits(n as int / 16)).push(
                hex_digit_char(n as int % 16),
            ));
        }
    }
}

/// Append the `U+XXXX` label of one code point.
fn push_label(out: &mut Vec<char>, c: char)
    ensures
        final (out)@ == old(out)@ + codepoint_label(c),
{
    let code = c as u32;
    out.push('U');
    out.push('+');
    proof {
        lemma_hex_len(code as int);
    }
    proof {
        assert(zero_chars(0) =~= Seq::<char>::empty());
        assert(zero_chars(1) =~= zero_chars(0).push('0'));
        assert(zero_chars(1) =~= seq!['0']);
        assert(zero_chars(2) =~= zero_chars(1).push('0'));
        assert(zero_chars(2) =~= seq!['0', '0']);
        assert(zero_chars(3) =~= zero_chars(2).push('0'));
        assert(zero_chars(3) =~= seq!['0', '0', '0']);
    }
    if code < 0x10 {
        out.push('0');
        out.push('0');
        out.push('0');
    } else if code < 0x100 {
        out.push('0');
        out.push('0');
    } else if code < 0x1000 {
        out.push('0');
    }
    push_hex(out, code);
    proof {
        assert(out@ =~= old(out)@ + codepoint_label(c));
    }
}

/// Append the space-separated labels of every character of `v`.
fn push_labels(out: &mut Vec<char>, v: &Vec<char>)
    ensures
        final (out)@ == old(out)@ + unicode_labels(v@),
{
    let mut i: usize = 0;
    proof {
        assert(v@.take(0) =~= Seq::<char>::empty());
        assert(out@ =~= old(out)@ + unicode_labels(v@.take(0)));
    }
    while i < v.len()
        invariant
            i <= v@.len(),
            out@ == old(out)@ + unicode_labels(v@.take(i as int)),
        decreases v@.len() - i,
    {
        let ghost t = v@.take(i as int);
        if i > 0 {
            out.push(' ');
        }
        let ghost mid = out@;
        push_label(out, v[i]);
        proof {
            assert(v@.take(i + 1) =~= t.push(v@[i as int]));
            lemma_labels_push(t, v@[i as int]);
            if i == 0 {
                assert(out@ =~= old(out)@ + unicode_labels(v@.take(i + 1)));
            } else {
                assert(mid =~= (old(out)@ + unicode_labels(t)).push(' '));
                assert(out@ =~= old(out)@ + unicode_labels(v@.take(i + 1)));
            }
        }
        i += 1;
    }
    proof {
        assert(v@.take(v@.len() as int) =~= v@);
    }
}

/// The `U+XXXX` code-point sequence of a string, space separated.
pub fn str_to_unicode_sequence(s: &str) -> (r: String)
    ensures
        r@ == unicode_labels(s@),
{
    let v = str_to_chars(s);
    let mut out: Vec<char> = Vec::new();
    push_labels(&mut out, &v);
    chars_to_string(&out)
}

/// A run of `n` spaces.
pub open spec fn space_chars(n: int) -> Seq<char>
    decreases n,
{
    if n <= 0 {
        Seq::empty()
    } else {
        space_chars(n - 1).push(' ')
    }
}

/// A label padded on the right to at least seven characters.
pub open spec fn pad_label7(s: Seq<char>) -> Seq<char> {
    if s.len() >= 7 {
        s
    } else {
        s + space_chars(7 - s.len())
    }
}

/// The code-point label of an atom together with its semantic annotation.
pub open spec fn spec_unicode_hint(s: Seq<char>) -> Seq<char> {
    if is_single(s, 0x200D) {
        pad_label7(unicode_labels(s)) + " (ZWJ)"@
    } else if is_single(s, 0xFE0F) {
        pad_label7(unicode_labels(s)) + " (Emoji Variant)"@
    } else if is_single(s, 0x20E3) {
        pad_label7(unicode_labels(s)) + " (Combining Mark)"@
    } else if is_skin_tone(s) {
        pad_label7(unicode_labels(s)) + " (Skin Tone)"@
    } else if is_hair(s) {
        pad_label7(unicode_labels(s)) + " (Hair Colors)"@
    } else {
        unicode_labels(s)
    }
}

/// Pad a label on the right to at least seven characters.
fn pad_base7(v: &mut Vec<char>)
    ensures
        final (v)@ == pad_label7(old(v)@),
{
    let mut n = v.len();
    while n < 7
        invariant
            n == v@.len(),
            old(v)@.len() < 7 ==> n <= 7,
            old(v)@.len() >= 7 ==> n == old(v)@.len(),
            v@ == (if old(v)@.len() >= n {
                old(v)@
            } else {
                old(v)@ + space_chars(n - old(v)@.len())
            }),
        decreases 7 - n,
    {
        v.push(' ');
        proof {
            assert(space_chars(0) =~= Seq::<char>::empty());
            assert(space_chars(1) =~= space_chars(0).push(' '));
            if old(v)@.len() >= n {
                assert(old(v)@.len() == n);
                assert(v@ =~= old(v)@ + space_chars(n + 1 - old(v)@.len()));
            } else {
                assert(space_chars(n + 1 - old(v)@.len()) =~= space_chars(n - old(v)@.len()).push(
                    ' ',
                ));
                assert(v@ =~= old(v)@ + space_chars(n + 1 - old(v)@.len()));
            }
        }
        n += 1;
    }
    proof {
        if old(v)@.len() >= 7 {
            assert(v@ =~= pad_label7(old(v)@));
        } else {
            assert(n == 7);
            assert(v@ =~= pad_label7(old(v)@));
        }
    }
}

/// The Unicode code-point label of an atom, annotated for the special
/// layout-affecting atoms.
pub fn display_unicode_hint(s: &str) -> (r: String)
    ensures
        r@ == spec_unicode_hint(s@),
{
    let v = str_to_chars(s);
    let mut base: Vec<char> = Vec::new();
    push_labels(&mut base, &v);
    proof {
        assert(base@ =~= unicode_labels(s@));
    }
    if is_zwj(s) {
        pad_base7(&mut base);
        let mut r = chars_to_string(&base);
        r.append(" (ZWJ)");
        r
    } else if is_emoji_vs(s) {
        pad_base7(&mut base);
        let mut r = chars_to_string(&base);
        r.append(" (Emoji Variant)");
        r
    } else if is_combining_mark(s) {
        pad_base7(&mut base);
        let mut r = chars_to_string(&base);
        r.append(" (Combining Mark)");
        r
    } else if is_skin_tone_modifier(s) {
        pad_base7(&mut base);
        let mut r = chars_to_string(&base);
        r.append(" (Skin Tone)");
        r
    } else if is_hair_component(s) {
        pad_base7(&mut base);
        let mut r = chars_to_string(&base);
        r.append(" (Hair Colors)");
        r
    } else {
        chars_to_string(&base)
    }
}

} // verus!
