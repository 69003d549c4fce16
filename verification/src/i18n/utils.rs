//! Placeholder interpolation for message templates: each `{key}` in a
//! template is replaced by its value, leftmost first, non-overlapping.

use vstd::prelude::*;

use crate::text::{chars_to_string, str_to_chars};

verus! {

/// The pattern a variable key stands for in a template: `{key}`.
pub open spec fn brace_key(k: Seq<char>) -> Seq<char> {
    seq!['{'] + k + seq!['}']
}

/// Replace every occurrence of `pat` in `s` by `to`: leftmost first,
/// non-overlapping, with the replacement itself never rescanned — exactly as
/// `str::replace` does.
pub open spec fn spec_replace(s: Seq<char>, pat: Seq<char>, to: Seq<char>) -> Seq<char>
    recommends
        pat.len() > 0,
    decreases s.len(),
{
    if pat.len() == 0 || s.len() < pat.len() {
        s
    } else if s.take(pat.len() as int) == pat {
        to + spec_replace(s.skip(pat.len() as int), pat, to)
    } else {
        seq![s[0]] + spec_replace(s.drop_first(), pat, to)
    }
}

/// Interpolate a template with a list of key/value pairs, in order.
pub open spec fn spec_format_i18n(t: Seq<char>, vars: Seq<(Seq<char>, Seq<char>)>) -> Seq<char>
    decreases vars.len(),
{
    if vars.len() == 0 {
        t
    } else {
        spec_format_i18n(
            spec_replace(t, brace_key(vars.first().0), vars.first().1),
            vars.drop_first(),
        )
    }
}

/// The key/value views of an argument list.
pub open spec fn var_views(vars: Seq<(&str, String)>) -> Seq<(Seq<char>, Seq<char>)> {
    vars.map_values(|p: (&str, String)| (p.0@, p.1@))
}

/// Whether `s[at..at + pat.len()]` equals `pat`.
fn window_matches(s: &Vec<char>, at: usize, pat: &Vec<char>) -> (r: bool)
    requires
        at + pat@.len() <= s@.len(),
    ensures
        r == (s@.subrange(at as int, at + pat@.len()) == pat@),
{
    let m = pat.len();
    let sn = s.len();
    let mut k: usize = 0;
    while k < m
        invariant
            k <= m,
            m == pat@.len(),
            sn == s@.len(),
            at + m <= sn,
            forall|j: int| 0 <= j < k ==> s@[at + j] == pat@[j],
        decreases m - k,
    {
        if s[at + k] != pat[k] {
            assert(s@.subrange(at as int, at + pat@.len())[k as int] != pat@[k as int]);
            return false;
        }
        k += 1;
    }
    proof {
        assert(s@.subrange(at as int, at + pat@.len()) =~= pat@);
    }
    true
}

/// Append every character of `src` to `out`.
fn push_all(out: &mut Vec<char>, src: &Vec<char>)
    ensures
        final(out)@ == old(out)@ + src@,
{
    let mut k: usize = 0;
    while k < src.len()
        invariant
            k <= src@.len(),
            out@ == old(out)@ + src@.take(k as int),
        decreases src@.len() - k,
    {
        out.push(src[k]);
        proof {
            assert(old(out)@ + src@.take(k + 1) =~= (old(out)@ + src@.take(k as int)).push(
                src@[k as int],
            ));
        }
        k += 1;
    }
    proof {
        assert(src@.take(src@.len() as int) =~= src@);
    }
}

/// Replace every occurrence of `pat` in `s` by `to`.
fn replace_chars(s: &Vec<char>, pat: &Vec<char>, to: &Vec<char>) -> (r: Vec<char>)
    requires
        pat@.len() > 0,
    ensures
        r@ == spec_replace(s@, pat@, to@),
{
    let n = s.len();
    let m = pat.len();
    let mut out: Vec<char> = Vec::new();
    let mut i: usize = 0;
    proof {
        assert(s@.skip(0) =~= s@);
        assert(out@ + spec_replace(s@, pat@, to@) =~= spec_replace(s@, pat@, to@));
    }
    while i < n
        invariant
            i <= n,
            n == s@.len(),
            m == pat@.len(),
            m > 0,
            out@ + spec_replace(s@.skip(i as int), pat@, to@) == spec_replace(s@, pat@, to@),
        decreases n - i,
    {
        let ghost rest = s@.skip(i as int);
        let ghost out_pre = out@;
        if m <= n - i && window_matches(s, i, pat) {
            proof {
                assert(rest.take(m as int) =~= s@.subrange(i as int, i + m));
                assert(rest.skip(m as int) =~= s@.skip(i + m));
                assert(spec_replace(rest, pat@, to@) == to@ + spec_replace(
                    s@.skip(i + m),
                    pat@,
                    to@,
                ));
            }
            push_all(&mut out, to);
            proof {
                assert(out@ + spec_replace(s@.skip(i + m), pat@, to@) =~= out_pre + (to@
                    + spec_replace(s@.skip(i + m), pat@, to@)));
            }
            i += m;
        } else {
            proof {
                if rest.len() >= m {
                    assert(rest.take(m as int) =~= s@.subrange(i as int, i + m));
                    assert(rest.take(m as int) != pat@);
                }
                assert(spec_replace(rest, pat@, to@) == seq![rest[0]] + spec_replace(
                    rest.drop_first(),
                    pat@,
                    to@,
                ));
                assert(rest[0] == s@[i as int]);
                assert(rest.drop_first() =~= s@.skip(i + 1));
            }
            let c = s[i];
            out.push(c);
            proof {
                assert(out@ + spec_replace(s@.skip(i + 1), pat@, to@) =~= out_pre + (seq![
                    s@[i as int],
                ] + spec_replace(s@.skip(i + 1), pat@, to@)));
            }
            i += 1;
        }
    }
    proof {
        assert(s@.skip(n as int) =~= Seq::<char>::empty());
        assert(spec_replace(Seq::<char>::empty(), pat@, to@) == Seq::<char>::empty());
        assert(out@ + Seq::<char>::empty() =~= out@);
    }
    out
}

/// Replace each `{key}` placeholder in the template with its value, in the
/// order the pairs are given.
pub fn format_i18n(template: &str, vars: &[(&str, String)]) -> (r: String)
    ensures
        r@ == spec_format_i18n(template@, var_views(vars@)),
{
    let mut cur = str_to_chars(template);
    let mut i: usize = 0;
    let ghost vs = var_views(vars@);
    proof {
        assert(vs.skip(0) =~= vs);
    }
    while i < vars.len()
        invariant
            i <= vars@.len(),
            vs == var_views(vars@),
            spec_format_i18n(cur@, vs.skip(i as int)) == spec_format_i18n(template@, vs),
        decreases vars@.len() - i,
    {
        let ghost rest = vs.skip(i as int);
        let key = vars[i].0;
        let kc = str_to_chars(key);
        let mut pat: Vec<char> = Vec::new();
        pat.push('{');
        push_all(&mut pat, &kc);
        pat.push('}');
        proof {
            assert(pat@ =~= brace_key(vars@[i as int].0@));
            assert(rest.first() == (vars@[i as int].0@, vars@[i as int].1@));
            assert(rest.drop_first() =~= vs.skip(i + 1));
        }
        let to = str_to_chars(vars[i].1.as_str());
        let next = replace_chars(&cur, &pat, &to);
        proof {
            assert(spec_format_i18n(cur@, rest) == spec_format_i18n(next@, vs.skip(i + 1)));
        }
        cur = next;
        i += 1;
    }
    proof {
        assert(vs.skip(vars@.len() as int) =~= Seq::<(Seq<char>, Seq<char>)>::empty());
    }
    chars_to_string(&cur)
}

} // verus!
