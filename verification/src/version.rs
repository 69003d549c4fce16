//! Extraction of the width engine's version from a `Cargo.lock` file's
//! content: the `version = "…"` entry of the `runefix-core` package block.

use vstd::prelude::*;

use crate::lines::{spec_lines, split_lines};
use crate::text::{str_eq, str_to_chars, trim_end_char, trim_start_ws, trim_ws, views_of};

verus! {

/// The lock-file line that opens the package block of the width engine.
pub open spec fn core_name_line() -> Seq<char> {
    "name = \"runefix-core\""@
}

/// The prefix of a version line, and the same prefix with its opening quote.
pub open spec fn version_prefix() -> Seq<char> {
    "version = "@
}

pub open spec fn version_quote_prefix() -> Seq<char> {
    "version = \""@
}

/// The version a sequence of lock-file lines yields, scanning from a state
/// that is inside the package block (`in_block`) or not. Inside the block,
/// the first `version = ` line decides: its quoted value is the version, and
/// a malformed one yields `None`; a blank line leaves the block.
pub open spec fn version_from_lines(ls: Seq<Seq<char>>, in_block: bool) -> Option<Seq<char>>
    decreases ls.len(),
{
    if ls.len() == 0 {
        None
    } else {
        let l = ls.first();
        if !in_block {
            if trim_ws(l) == core_name_line() {
                version_from_lines(ls.drop_first(), true)
            } else {
                version_from_lines(ls.drop_first(), false)
            }
        } else {
            let ts = trim_start_ws(l);
            if ts.len() >= version_prefix().len() && ts.take(version_prefix().len() as int)
                == version_prefix() {
                let t = trim_ws(l);
                if t.len() >= version_quote_prefix().len() && t.take(
                    version_quote_prefix().len() as int,
                ) == version_quote_prefix() {
                    Some(trim_end_char(t.skip(version_quote_prefix().len() as int), '"'))
                } else {
                    None
                }
            } else if trim_ws(l).len() == 0 {
                version_from_lines(ls.drop_first(), false)
            } else {
                version_from_lines(ls.drop_first(), true)
            }
        }
    }
}

/// The version of the width engine a lock file's content records.
pub open spec fn spec_core_version(lock: Seq<char>) -> Option<Seq<char>> {
    version_from_lines(spec_lines(lock), false)
}

/// Extract the width engine's version from a lock file's content.
pub fn extract_core_version_from_lock(lock: &str) -> (r: Option<String>)
    ensures
        match r {
            Some(s) => spec_core_version(lock@) == Some(s@),
            None => spec_core_version(lock@) is None,
        },
{
    proof {
        reveal_strlit("version = ");
        reveal_strlit("version = \"");
        assert(version_prefix().len() == 10);
        assert(version_quote_prefix().len() == 11);
    }
    let lines = split_lines(lock);
    let ghost lsv = spec_lines(lock@);
    let mut in_block = false;
    let mut i: usize = 0;
    proof {
        assert(lsv.skip(0) =~= lsv);
    }
    while i < lines.len()
        invariant
            i <= lines@.len(),
            lsv == spec_lines(lock@),
            views_of(lines@) == lsv,
            version_from_lines(lsv.skip(i as int), in_block) == version_from_lines(lsv, false),
        decreases lines@.len() - i,
    {
        let ghost rest = lsv.skip(i as int);
        proof {
            assert(rest.first() == lsv[i as int]);
            assert(rest.drop_first() =~= lsv.skip(i + 1));
        }
        let line = &lines[i];
        let v = str_to_chars(line.as_str());
        let n = v.len();
        proof {
            assert(v@.subrange(0, n as int) =~= v@);
        }
        let (a, b) = crate::text::trim_ws_bounds(&v, 0, n);
        let ghost l = lsv[i as int];
        proof {
            assert(v@.subrange(a as int, b as int) == trim_ws(l));
            assert(v@.subrange(a as int, n as int) == trim_start_ws(l));
        }
        if !in_block {
            let trimmed = line.as_str().substring_char(a, b);
            if str_eq(trimmed, "name = \"runefix-core\"") {
                in_block = true;
            }
            i += 1;
        } else {
            proof {
                reveal_strlit("version = ");
                reveal_strlit("version = \"");
            }
            let has_prefix = if n - a >= 10 {
                let p = line.as_str().substring_char(a, a + 10);
                proof {
                    assert(p@ =~= trim_start_ws(l).take(10));
                }
                str_eq(p, "version = ")
            } else {
                false
            };
            if has_prefix {
                // A version line of the block decides the result.
                if b - a >= 11 {
                    let q = line.as_str().substring_char(a, a + 11);
                    proof {
                        assert(q@ =~= trim_ws(l).take(11));
                    }
                    if str_eq(q, "version = \"") {
                        // Drop the closing quotes from the value.
                        let mut qb = b;
                        while qb > a + 11 && v[qb - 1] == '"'
                            invariant
                                a + 11 <= qb <= b <= v@.len(),
                                trim_end_char(v@.subrange(a + 11, qb as int), '"') == trim_end_char(
                                    v@.subrange(a + 11, b as int),
                                    '"',
                                ),
                            decreases qb,
                        {
                            proof {
                                let w = v@.subrange(a + 11, qb as int);
                                assert(w.last() == v@[qb - 1]);
                                assert(w.drop_last() =~= v@.subrange(a + 11, qb - 1));
                            }
                            qb -= 1;
                        }
                        proof {
                            let w = v@.subrange(a + 11, qb as int);
                            if qb > a + 11 {
                                assert(w.last() == v@[qb - 1]);
                            }
                            assert(trim_end_char(w, '"') == w);
                            assert(v@.subrange(a + 11, b as int) =~= trim_ws(l).skip(11));
                        }
                        let version = line.as_str().substring_char(a + 11, qb);
                        proof {
                            assert(version@ == trim_end_char(trim_ws(l).skip(11), '"'));
                        }
                        return Some(version.to_owned());
                    } else {
                        return None;
                    }
                } else {
                    proof {
                        assert(trim_ws(l).len() < 11);
                    }
                    return None;
                }
            }
            if a == b {
                in_block = false;
            }
            i += 1;
        }
    }
    proof {
        assert(lsv.skip(lines@.len() as int) =~= Seq::<Seq<char>>::empty());
    }
    None
}

} // verus!
