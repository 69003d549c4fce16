use runefix_cli::cli::{Cli, Commands, PolicyInput, SliceArgs, TextInput, VersionArgs, WidthInput};
use runefix_cli::dispatch::{dispatch, Action};
use runefix_cli::policy::PolicyKind;
use runefix_cli::segment::SliceMode;
use runefix_cli::version::extract_core_version_from_lock;

fn slice_args(by_char: bool, by_width: bool, by_grapheme: bool) -> Cli {
    Cli {
        command: Commands::Slice(SliceArgs {
            range: "[0:2]".to_string(),
            text: Some("abc".to_string()),
            char: by_char,
            width: by_width,
            grapheme: by_grapheme,
            verbose: false,
            strict: true,
        }),
    }
}

#[test]
fn slice_mode_defaults_to_grapheme() {
    match dispatch(slice_args(false, false, false)) {
        Action::Slice { mode, strict, text, range, .. } => {
            assert_eq!(mode, SliceMode::Grapheme);
            assert!(strict);
            assert_eq!(text.as_deref(), Some("abc"));
            assert_eq!(range, "[0:2]");
        },
        _ => panic!("expected a slice action"),
    }
}

#[test]
fn slice_mode_char_flag_wins() {
    match dispatch(slice_args(true, true, true)) {
        Action::Slice { mode, .. } => assert_eq!(mode, SliceMode::Char),
        _ => panic!("expected a slice action"),
    }
}

#[test]
fn slice_mode_width_flag() {
    match dispatch(slice_args(false, true, false)) {
        Action::Slice { mode, .. } => assert_eq!(mode, SliceMode::Width),
        _ => panic!("expected a slice action"),
    }
}

#[test]
fn width_command_parses_policy() {
    let cli = Cli {
        command: Commands::Width(PolicyInput {
            text: None,
            policy: "markdown".to_string(),
            verbose: true,
        }),
    };
    match dispatch(cli) {
        Action::Width { policy, policy_known, verbose, text } => {
            assert_eq!(policy, PolicyKind::Markdown);
            assert!(policy_known);
            assert!(verbose);
            assert!(text.is_none());
        },
        _ => panic!("expected a width action"),
    }
}

#[test]
fn unknown_policy_falls_back_to_terminal() {
    let cli = Cli {
        command: Commands::Widths(PolicyInput {
            text: Some("x".to_string()),
            policy: "fancy".to_string(),
            verbose: false,
        }),
    };
    match dispatch(cli) {
        Action::Widths { policy, policy_known, .. } => {
            assert_eq!(policy, PolicyKind::Terminal);
            assert!(!policy_known);
        },
        _ => panic!("expected a widths action"),
    }
}

#[test]
fn split_and_truncate_carry_width() {
    let cli = Cli {
        command: Commands::Split(WidthInput {
            text: Some("abc".to_string()),
            width: 5,
            policy: "terminal".to_string(),
            verbose: false,
        }),
    };
    match dispatch(cli) {
        Action::Split { width, policy, .. } => {
            assert_eq!(width, 5);
            assert_eq!(policy, PolicyKind::Terminal);
        },
        _ => panic!("expected a split action"),
    }
    let cli = Cli {
        command: Commands::Truncate(WidthInput {
            text: Some("abc".to_string()),
            width: 2,
            policy: "compact".to_string(),
            verbose: true,
        }),
    };
    match dispatch(cli) {
        Action::Truncate { width, policy, .. } => {
            assert_eq!(width, 2);
            assert_eq!(policy, PolicyKind::Compact);
        },
        _ => panic!("expected a truncate action"),
    }
}

#[test]
fn version_and_init_pass_through() {
    match dispatch(Cli { command: Commands::Version(VersionArgs { json: true }) }) {
        Action::Version { json } => assert!(json),
        _ => panic!("expected a version action"),
    }
    assert!(matches!(dispatch(Cli { command: Commands::Init }), Action::Init));
    match dispatch(Cli { command: Commands::Atoms(TextInput { text: Some("x".to_string()) }) }) {
        Action::Atoms { text } => assert_eq!(text.as_deref(), Some("x")),
        _ => panic!("expected an atoms action"),
    }
}

#[test]
fn core_version_from_lock_content() {
    let lock = "[[package]]\nname = \"other\"\nversion = \"9.9.9\"\n\n[[package]]\nname = \"runefix-core\"\nversion = \"0.1.10\"\nsource = \"x\"\n";
    assert_eq!(extract_core_version_from_lock(lock), Some("0.1.10".to_string()));
}

#[test]
fn core_version_absent_block() {
    let lock = "[[package]]\nname = \"other\"\nversion = \"9.9.9\"\n";
    assert_eq!(extract_core_version_from_lock(lock), None);
}

#[test]
fn core_version_block_ends_at_blank_line() {
    // The version after the block's end is not read.
    let lock = "name = \"runefix-core\"\n\nversion = \"1.2.3\"\n";
    assert_eq!(extract_core_version_from_lock(lock), None);
}

#[test]
fn core_version_unquoted_is_rejected() {
    let lock = "name = \"runefix-core\"\nversion = 1.2.3\n";
    assert_eq!(extract_core_version_from_lock(lock), None);
}
