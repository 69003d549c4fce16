//! User configuration and runtime context: the `lang = …` key of the config
//! file, and the context value the command handlers carry.
//!
//! Reading the config file from disk is the caller's concern; this module
//! parses its content and resolves messages.

use vstd::prelude::*;

use crate::i18n::keys::MessageKey;
use crate::i18n::lang::Lang;
use crate::lines::{spec_lines, split_lines};
use crate::range_expr::{first_at, lemma_first_at, window_find};
use crate::text::{str_eq, str_to_chars, trim_char, trim_ws, views_of};

verus! {

/// The language named by a `lang = …` value, if it is one of the known codes.
pub open spec fn lang_of_value(v: Seq<char>) -> Option<Lang> {
    if v == "zh-CN"@ {
        Some(Lang::ZhCN)
    } else if v == "en-US"@ {
        Some(Lang::EnUS)
    } else if v == "ja-JP"@ {
        Some(Lang::JaJP)
    } else {
        None
    }
}

/// The language selected by a sequence of config lines: the first line that
/// is neither blank nor a `#` comment and assigns to the key `lang` decides;
/// an unknown code on that line yields `None`.
pub open spec fn lang_of_lines(ls: Seq<Seq<char>>) -> Option<Lang>
    decreases ls.len(),
{
    if ls.len() == 0 {
        None
    } else {
        let l = trim_ws(ls.first());
        if l.len() == 0 || l.first() == '#' {
            lang_of_lines(ls.drop_first())
        } else {
            let k = first_at(l, '=', 0);
            if k == l.len() {
                lang_of_lines(ls.drop_first())
            } else if trim_ws(l.take(k)) == "lang"@ {
                lang_of_value(trim_char(trim_ws(l.skip(k + 1)), '"'))
            } else {
                lang_of_lines(ls.drop_first())
            }
        }
    }
}

/// The language selected by a config file's content.
pub open spec fn spec_parse_lang(content: Seq<char>) -> Option<Lang> {
    lang_of_lines(spec_lines(content))
}

/// The user configuration: the selected interface language.
#[derive(Debug, Clone, Copy, PartialEq, Eq, Structural)]
pub struct Config {
    pub lang: Lang,
}

impl Config {
    /// Parse the config file content: the first effective `lang = …` line
    /// selects the language.
    pub fn parse_lang(content: &str) -> (r: Option<Lang>)
        ensures
            r == spec_parse_lang(content@),
    {
        let lines = split_lines(content);
        let ghost lsv = spec_lines(content@);
        let mut i: usize = 0;
        proof {
            assert(lsv.skip(0) =~= lsv);
        }
        while i < lines.len()
            invariant
                i <= lines@.len(),
                lsv == spec_lines(content@),
                views_of(lines@) == lsv,
                lang_of_lines(lsv.skip(i as int)) == lang_of_lines(lsv),
            decreases lines@.len() - i,
        {
            let ghost rest = lsv.skip(i as int);
            proof {
                assert(rest.first() == lsv[i as int]);
                assert(rest.drop_first() =~= lsv.skip(i + 1));
            }
            let line = &lines[i];
            let v = str_to_chars(line.as_str());
            let n = v.len();
            proof {
                assert(v@.subrange(0, n as int) =~= v@);
            }
            let (a, b) = crate::text::trim_ws_bounds(&v, 0, n);
            let ghost l = trim_ws(lsv[i as int]);
            proof {
                assert(v@.subrange(a as int, b as int) == l);
            }
            if a == b || v[a] == '#' {
                proof {
                    if a < b {
                        assert(l.first() == v@[a as int]);
                    }
                }
                i += 1;
            } else {
                let k = window_find(&v, a, b, '=');
                proof {
                    assert(first_at(l, '=', 0) == k - a);
                    lemma_first_at(l, '=', 0);
                }
                if k == b {
                    i += 1;
                } else {
                    let key = line.as_str().substring_char(a, k);
                    let kv = str_to_chars(key);
                    proof {
                        assert(kv@ =~= l.take(k - a));
                        assert(kv@.subrange(0, kv@.len() as int) =~= kv@);
                    }
                    let (ka, kb) = crate::text::trim_ws_bounds(&kv, 0, kv.len());
                    let key_trimmed = key.substring_char(ka, kb);
                    proof {
                        assert(key_trimmed@ == trim_ws(l.take(k - a)));
                    }
                    if str_eq(key_trimmed, "lang") {
                        proof {
                            assert(l.skip(k - a + 1) =~= v@.subrange(k + 1, b as int));
                        }
                        let (va, vb) = crate::text::trim_ws_bounds(&v, k + 1, b);
                        let (qa, qb) = crate::text::trim_char_bounds(&v, va, vb, '"');
                        let value = line.as_str().substring_char(qa, qb);
                        proof {
                            assert(v@.subrange(va as int, vb as int) == trim_ws(l.skip(k - a + 1)));
                            assert(value@ == trim_char(trim_ws(l.skip(k - a + 1)), '"'));
                            assert(l.len() > 0);
                            assert(l.first() == v@[a as int]);
                            assert(l.first() != '#');
                            assert(k - a < l.len());
                            assert(trim_ws(l.take(k - a)) == "lang"@);
                            assert(lang_of_lines(rest) == lang_of_value(value@));
                            assert(lang_of_lines(lsv) == lang_of_value(value@));
                        }
                        if str_eq(value, "zh-CN") {
                            return Some(Lang::ZhCN);
                        } else if str_eq(value, "en-US") {
                            return Some(Lang::EnUS);
                        } else if str_eq(value, "ja-JP") {
                            return Some(Lang::JaJP);
                        } else {
                            return None;
                        }
                    }
                    i += 1;
                }
            }
        }
        proof {
            assert(lsv.skip(lines@.len() as int) =~= Seq::<Seq<char>>::empty());
        }
        None
    }

    /// The configuration a config file's content selects, falling back to
    /// `en-US` when no line selects a known language.
    pub fn from_content(content: &str) -> (r: Config)
        ensures
            r.lang == (match spec_parse_lang(content@) {
                Some(l) => l,
                None => Lang::EnUS,
            }),
    {
        match Config::parse_lang(content) {
            Some(lang) => Config { lang },
            None => Config { lang: Lang::EnUS },
        }
    }
}

/// The global runtime context: the resolved language.
#[derive(Debug, Clone, Copy, PartialEq, Eq, Structural)]
pub struct Context {
    pub lang: Lang,
}

impl Context {
    /// Resolve a localized message for the current language.
    pub fn t<K: MessageKey>(&self, key: K) -> (r: String)
        ensures
            r@ == key.message_of(self.lang),
    {
        match key.lookup(&self.lang) {
            Some(s) => s,
            None => vstd::pervasive::unreached(),
        }
    }
}

} // verus!
