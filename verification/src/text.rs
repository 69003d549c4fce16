//! Character-level utilities shared by the whole crate: views of strings as
//! character sequences, concatenation of unit sequences, whitespace
//! classification, and decimal digits.

use vstd::prelude::*;

verus! {

/// The character sequences of a sequence of owned strings.
pub open spec fn views_of(units: Seq<String>) -> Seq<Seq<char>> {
    units.map_values(|u: String| u@)
}

/// Concatenation of a sequence of character sequences, in order.
pub open spec fn concat_all(parts: Seq<Seq<char>>) -> Seq<char>
    decreases parts.len(),
{
    if parts.len() == 0 {
        Seq::empty()
    } else {
        parts.first() + concat_all(parts.drop_first())
    }
}

pub proof fn lemma_concat_all_push(parts: Seq<Seq<char>>, tail: Seq<char>)
    ensures
        concat_all(parts.push(tail)) == concat_all(parts) + tail,
    decreases parts.len(),
{
    if parts.len() == 0 {
        assert(parts.push(tail).drop_first() =~= Seq::<Seq<char>>::empty());
        assert(parts.push(tail).first() == tail);
        assert(tail + concat_all(Seq::<Seq<char>>::empty()) =~= tail);
        assert(concat_all(parts) + tail =~= tail);
    } else {
        assert(parts.push(tail).drop_first() =~= parts.drop_first().push(tail));
        lemma_concat_all_push(parts.drop_first(), tail);
        assert(concat_all(parts.push(tail)) =~= concat_all(parts) + tail);
    }
}

pub proof fn lemma_concat_all_split(parts: Seq<Seq<char>>, i: int)
    requires
        0 <= i <= parts.len(),
    ensures
        concat_all(parts) == concat_all(parts.take(i)) + concat_all(parts.skip(i)),
    decreases i,
{
    if i == 0 {
        assert(parts.take(0) =~= Seq::<Seq<char>>::empty());
        assert(parts.skip(0) =~= parts);
        assert(concat_all(parts.take(0)) + concat_all(parts) =~= concat_all(parts));
    } else {
        lemma_concat_all_split(parts.drop_first(), i - 1);
        assert(parts.take(i).drop_first() =~= parts.drop_first().take(i - 1));
        assert(parts.skip(i) =~= parts.drop_first().skip(i - 1));
        assert(parts.take(i).first() == parts.first());
        assert(concat_all(parts.take(i)) == parts.first() + concat_all(
            parts.drop_first().take(i - 1),
        ));
        assert(concat_all(parts) =~= concat_all(parts.take(i)) + concat_all(parts.skip(i)));
    }
}

/// A sequence of non-empty parts has no more parts than their concatenation
/// has characters.
pub proof fn lemma_concat_all_count(parts: Seq<Seq<char>>)
    requires
        forall|i: int| 0 <= i < parts.len() ==> (#[trigger] parts[i]).len() > 0,
    ensures
        concat_all(parts).len() >= parts.len(),
    decreases parts.len(),
{
    if parts.len() > 0 {
        assert(forall|i: int|
            0 <= i < parts.drop_first().len() ==> (#[trigger] parts.drop_first()[i]).len() > 0);
        lemma_concat_all_count(parts.drop_first());
    }
}

/// Collect the characters of a string slice into a vector.
pub fn str_to_chars(s: &str) -> (r: Vec<char>)
    ensures
        r@ == s@,
{
    let n = s.unicode_len();
    let mut r: Vec<char> = Vec::new();
    let mut i: usize = 0;
    while i < n
        invariant
            n == s@.len(),
            i <= n,
            r@ == s@.take(i as int),
        decreases n - i,
    {
        r.push(s.get_char(i));
        i += 1;
        proof {
            assert(s@.take(i as int) =~= s@.take(i - 1).push(s@[i - 1]));
        }
    }
    proof {
        assert(s@.take(n as int) =~= s@);
    }
    r
}

/// Compare two string slices character by character.
pub fn str_eq(a: &str, b: &str) -> (r: bool)
    ensures
        r == (a@ == b@),
{
    let na = a.unicode_len();
    let nb = b.unicode_len();
    if na != nb {
        return false;
    }
    let mut i: usize = 0;
    while i < na
        invariant
            i <= na,
            na == a@.len() && na == b@.len(),
            forall|j: int| 0 <= j < i ==> a@[j] == b@[j],
        decreases na - i,
    {
        if a.get_char(i) != b.get_char(i) {
            return false;
        }
        i += 1;
    }
    proof {
        assert(a@ =~= b@);
    }
    true
}

/// Collect the characters of a vector into an owned string.
///
/// Relies on `String`'s `FromIterator<char>` implementation from std:
/// collecting characters yields the string of exactly those characters.
#[verifier::external_body]
pub fn chars_to_string(v: &Vec<char>) -> (r: String)
    ensures
        r@ == v@,
{
    v.iter().collect()
}

/// The Unicode `White_Space` code points, as `char::is_whitespace` reports them.
pub open spec fn spec_is_whitespace(c: char) -> bool {
    ||| (0x9 <= c as u32 && c as u32 <= 0xD)
    ||| c == ' '
    ||| c as u32 == 0x85
    ||| c as u32 == 0xA0
    ||| c as u32 == 0x1680
    ||| (0x2000 <= c as u32 && c as u32 <= 0x200A)
    ||| c as u32 == 0x2028
    ||| c as u32 == 0x2029
    ||| c as u32 == 0x202F
    ||| c as u32 == 0x205F
    ||| c as u32 == 0x3000
}

/// Decide whether a character is Unicode whitespace.
pub fn is_whitespace_char(c: char) -> (r: bool)
    ensures
        r == spec_is_whitespace(c),
{
    let v = c as u32;
    (0x9 <= v && v <= 0xD) || v == 0x20 || v == 0x85 || v == 0xA0 || v == 0x1680 || (0x2000 <= v
        && v <= 0x200A) || v == 0x2028 || v == 0x2029 || v == 0x202F || v == 0x205F || v == 0x3000
}

/// The string with its leading whitespace dropped.
pub open spec fn trim_start_ws(s: Seq<char>) -> Seq<char>
    decreases s.len(),
{
    if s.len() > 0 && spec_is_whitespace(s.first()) {
        trim_start_ws(s.drop_first())
    } else {
        s
    }
}

/// The string with its trailing whitespace dropped.
pub open spec fn trim_end_ws(s: Seq<char>) -> Seq<char>
    decreases s.len(),
{
    if s.len() > 0 && spec_is_whitespace(s.last()) {
        trim_end_ws(s.drop_last())
    } else {
        s
    }
}

/// The string with leading and trailing whitespace dropped, as `str::trim`.
pub open spec fn trim_ws(s: Seq<char>) -> Seq<char> {
    trim_end_ws(trim_start_ws(s))
}

/// The string with every leading and trailing occurrence of `c` dropped, as
/// `str::trim_matches` with a single pattern character.
pub open spec fn trim_char(s: Seq<char>, c: char) -> Seq<char> {
    trim_end_char(trim_start_char(s, c), c)
}

pub open spec fn trim_start_char(s: Seq<char>, c: char) -> Seq<char>
    decreases s.len(),
{
    if s.len() > 0 && s.first() == c {
        trim_start_char(s.drop_first(), c)
    } else {
        s
    }
}

pub open spec fn trim_end_char(s: Seq<char>, c: char) -> Seq<char>
    decreases s.len(),
{
    if s.len() > 0 && s.last() == c {
        trim_end_char(s.drop_last(), c)
    } else {
        s
    }
}

/// The window of `v[lo..hi]` that remains after trimming whitespace on both
/// sides.
pub fn trim_ws_bounds(v: &Vec<char>, lo: usize, hi: usize) -> (r: (usize, usize))
    requires
        lo <= hi <= v@.len(),
    ensures
        lo <= r.0 <= r.1 <= hi,
        v@.subrange(r.0 as int, r.1 as int) == trim_ws(v@.subrange(lo as int, hi as int)),
        v@.subrange(r.0 as int, hi as int) == trim_start_ws(v@.subrange(lo as int, hi as int)),
{
    let mut a = lo;
    while a < hi && is_whitespace_char(v[a])
        invariant
            lo <= a <= hi <= v@.len(),
            trim_start_ws(v@.subrange(a as int, hi as int)) == trim_start_ws(
                v@.subrange(lo as int, hi as int),
            ),
        decreases hi - a,
    {
        proof {
            let w = v@.subrange(a as int, hi as int);
            assert(w.first() == v@[a as int]);
            assert(w.drop_first() =~= v@.subrange(a + 1, hi as int));
        }
        a += 1;
    }
    proof {
        let w = v@.subrange(a as int, hi as int);
        if a < hi {
            assert(w.first() == v@[a as int]);
        }
        assert(trim_start_ws(w) == w);
    }
    let mut b = hi;
    while b > a && is_whitespace_char(v[b - 1])
        invariant
            a <= b <= hi <= v@.len(),
            trim_end_ws(v@.subrange(a as int, b as int)) == trim_end_ws(
                v@.subrange(a as int, hi as int),
            ),
        decreases b - a,
    {
        proof {
            let w = v@.subrange(a as int, b as int);
            assert(w.last() == v@[b - 1]);
            assert(w.drop_last() =~= v@.subrange(a as int, b - 1));
        }
        b -= 1;
    }
    proof {
        let w = v@.subrange(a as int, b as int);
        if b > a {
            assert(w.last() == v@[b - 1]);
        }
        assert(trim_end_ws(w) == w);
    }
    (a, b)
}

/// The window of `v[lo..hi]` that remains after trimming `c` on both sides.
pub fn trim_char_bounds(v: &Vec<char>, lo: usize, hi: usize, c: char) -> (r: (usize, usize))
    requires
        lo <= hi <= v@.len(),
    ensures
        lo <= r.0 <= r.1 <= hi,
        v@.subrange(r.0 as int, r.1 as int) == trim_char(v@.subrange(lo as int, hi as int), c),
{
    let mut a = lo;
    while a < hi && v[a] == c
        invariant
            lo <= a <= hi <= v@.len(),
            trim_start_char(v@.subrange(a as int, hi as int), c) == trim_start_char(
                v@.subrange(lo as int, hi as int),
                c,
            ),
        decreases hi - a,
    {
        proof {
            let w = v@.subrange(a as int, hi as int);
            assert(w.first() == v@[a as int]);
            assert(w.drop_first() =~= v@.subrange(a + 1, hi as int));
        }
        a += 1;
    }
    proof {
        let w = v@.subrange(a as int, hi as int);
        if a < hi {
            assert(w.first() == v@[a as int]);
        }
        assert(trim_start_char(w, c) == w);
    }
    let mut b = hi;
    while b > a && v[b - 1] == c
        invariant
            a <= b <= hi <= v@.len(),
            trim_end_char(v@.subrange(a as int, b as int), c) == trim_end_char(
                v@.subrange(a as int, hi as int),
                c,
            ),
        decreases b - a,
    {
        proof {
            let w = v@.subrange(a as int, b as int);
            assert(w.last() == v@[b - 1]);
            assert(w.drop_last() =~= v@.subrange(a as int, b - 1));
        }
        b -= 1;
    }
    proof {
        let w = v@.subrange(a as int, b as int);
        if b > a {
            assert(w.last() == v@[b - 1]);
        }
        assert(trim_end_char(w, c) == w);
    }
    (a, b)
}

/// A decimal digit.
pub open spec fn spec_is_digit(c: char) -> bool {
    48 <= c as u32 && c as u32 <= 57
}

/// The numeric value of a decimal digit.
pub open spec fn digit_val(c: char) -> int {
    c as u32 - 48
}

/// The non-negative integer denoted by a sequence of decimal digits
/// (most significant first); meaningful when all characters are digits.
pub open spec fn digits_val(s: Seq<char>) -> int
    decreases s.len(),
{
    if s.len() == 0 {
        0
    } else {
        digits_val(s.drop_last()) * 10 + digit_val(s.last())
    }
}

} // verus!
