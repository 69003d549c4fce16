//! The command dispatcher: map parsed command-line arguments to the action
//! to perform, resolving the slice mode and the width policy. Running the
//! action (reading input, printing) is the binary's concern.

use vstd::prelude::*;

use crate::cli::{Cli, Commands};
use crate::policy::{parse_policy, spec_parse_policy, PolicyKind};
use crate::segment::SliceMode;

verus! {

/// One fully resolved command, ready to run.
pub enum Action {
    Atoms { text: Option<String> },
    Graphemes { text: Option<String> },
    Width { text: Option<String>, policy: PolicyKind, policy_known: bool, verbose: bool },
    Widths { text: Option<String>, policy: PolicyKind, policy_known: bool, verbose: bool },
    Split {
        text: Option<String>,
        width: usize,
        policy: PolicyKind,
        policy_known: bool,
        verbose: bool,
    },
    Truncate {
        text: Option<String>,
        width: usize,
        policy: PolicyKind,
        policy_known: bool,
        verbose: bool,
    },
    Slice { text: Option<String>, range: String, mode: SliceMode, verbose: bool, strict: bool },
    Version { json: bool },
    Init,
}

/// The policy a name resolves to: an unknown name falls back to the
/// terminal policy.
pub open spec fn resolved_policy(name: Seq<char>) -> PolicyKind {
    match spec_parse_policy(name) {
        Some(p) => p,
        None => PolicyKind::Terminal,
    }
}

/// The slice mode the three mode flags select: by character, by width, or —
/// as the default — by grapheme cluster.
pub open spec fn chosen_mode(by_char: bool, by_width: bool, by_grapheme: bool) -> SliceMode {
    if by_char {
        SliceMode::Char
    } else if by_width {
        SliceMode::Width
    } else {
        SliceMode::Grapheme
    }
}

/// Resolve the policy named on the command line, with the terminal fallback,
/// and whether the name was known.
fn resolve_policy_arg(name: &String) -> (r: (PolicyKind, bool))
    ensures
        r.0 == resolved_policy(name@),
        r.1 == spec_parse_policy(name@) is Some,
{
    match parse_policy(name.as_str()) {
        Some(p) => (p, true),
        None => (PolicyKind::Terminal, false),
    }
}

/// Map a parsed command line to the action it selects.
pub fn dispatch(cli: Cli) -> (r: Action)
    ensures
        (match cli.command {
            Commands::Atoms(t) => r == (Action::Atoms { text: t.text }),
            Commands::Graphemes(t) => r == (Action::Graphemes { text: t.text }),
            Commands::Width(p) => r == (Action::Width {
                text: p.text,
                policy: resolved_policy(p.policy@),
                policy_known: spec_parse_policy(p.policy@) is Some,
                verbose: p.verbose,
            }),
            Commands::Widths(p) => r == (Action::Widths {
                text: p.text,
                policy: resolved_policy(p.policy@),
                policy_known: spec_parse_policy(p.policy@) is Some,
                verbose: p.verbose,
            }),
            Commands::Split(w) => r == (Action::Split {
                text: w.text,
                width: w.width,
                policy: resolved_policy(w.policy@),
                policy_known: spec_parse_policy(w.policy@) is Some,
                verbose: w.verbose,
            }),
            Commands::Truncate(w) => r == (Action::Truncate {
                text: w.text,
                width: w.width,
                policy: resolved_policy(w.policy@),
                policy_known: spec_parse_policy(w.policy@) is Some,
                verbose: w.verbose,
            }),
            Commands::Slice(s) => r == (Action::Slice {
                text: s.text,
                range: s.range,
                mode: chosen_mode(s.char, s.width, s.grapheme),
                verbose: s.verbose,
                strict: s.strict,
            }),
            Commands::Version(v) => r == (Action::Version { json: v.json }),
            Commands::Init => r is Init,
        }),
{
    match cli.command {
        Commands::Atoms(t) => Action::Atoms { text: t.text },
        Commands::Graphemes(t) => Action::Graphemes { text: t.text },
        Commands::Width(p) => {
            let (policy, policy_known) = resolve_policy_arg(&p.policy);
            Action::Width { text: p.text, policy, policy_known, verbose: p.verbose }
        },
        Commands::Widths(p) => {
            let (policy, policy_known) = resolve_policy_arg(&p.policy);
            Action::Widths { text: p.text, policy, policy_known, verbose: p.verbose }
        },
        Commands::Split(w) => {
            let (policy, policy_known) = resolve_policy_arg(&w.policy);
            Action::Split { text: w.text, width: w.width, policy, policy_known, verbose: w.verbose }
        },
        Commands::Truncate(w) => {
            let (policy, policy_known) = resolve_policy_arg(&w.policy);
            Action::Truncate {
                text: w.text,
                width: w.width,
                policy,
                policy_known,
                verbose: w.verbose,
            }
        },
        Commands::Slice(s) => {
            let mode = if s.char {
                SliceMode::Char
            } else if s.width {
                SliceMode::Width
            } else {
                SliceMode::Grapheme
            };
            Action::Slice { text: s.text, range: s.range, mode, verbose: s.verbose, strict: s.strict }
        },
        Commands::Version(v) => Action::Version { json: v.json },
        Commands::Init => Action::Init,
    }
}

} // verus!
