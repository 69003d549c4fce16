//! The command-line surface as plain data: the subcommands and their
//! arguments. The argument parser itself lives with the binary; these types
//! carry the parsed values into the library.

use vstd::prelude::*;

verus! {

/// The parsed command line: one subcommand to execute.
pub struct Cli {
    pub command: Commands,
}

/// The supported subcommands.
pub enum Commands {
    /// Segment input into display-sensitive width atoms.
    Atoms(TextInput),
    /// Split input into grapheme clusters.
    Graphemes(TextInput),
    /// Measure total display width of input.
    Width(PolicyInput),
    /// Show the width of each segment.
    Widths(PolicyInput),
    /// Split input text into segments fitting a width.
    Split(WidthInput),
    /// Truncate input to a maximum width.
    Truncate(WidthInput),
    /// Slice input using a `[start:end]` expression.
    Slice(SliceArgs),
    /// Show version information.
    Version(VersionArgs),
    /// Initialize user configuration.
    Init,
}

/// Plain input text, read from standard input when absent.
pub struct TextInput {
    pub text: Option<String>,
}

/// Input text with a width-policy selection.
pub struct PolicyInput {
    pub text: Option<String>,
    pub policy: String,
    pub verbose: bool,
}

/// Input text with a policy and a maximum width.
pub struct WidthInput {
    pub text: Option<String>,
    pub width: usize,
    pub policy: String,
    pub verbose: bool,
}

/// Arguments of the version subcommand.
pub struct VersionArgs {
    pub json: bool,
}

/// Arguments of the slice subcommand.
pub struct SliceArgs {
    pub range: String,
    pub text: Option<String>,
    pub char: bool,
    pub width: bool,
    pub grapheme: bool,
    pub verbose: bool,
    pub strict: bool,
}

} // verus!
