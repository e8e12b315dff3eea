use rslint_staged::command::{invocation, is_whitespace, tokenize, Invocation};

fn texts(items: &[&str]) -> Vec<String> {
    items.iter().map(|s| s.to_string()).collect()
}

#[test]
fn tokenize_splits_on_a_space() {
    assert_eq!(tokenize("eslint --fix"), texts(&["eslint", "--fix"]));
}

#[test]
fn tokenize_drops_runs_of_whitespace() {
    assert_eq!(tokenize("  a \t b\n\nc\r\x0Cd  "), texts(&["a", "b", "c", "d"]));
}

#[test]
fn tokenize_of_a_blank_command_is_empty() {
    assert_eq!(tokenize(""), Vec::<String>::new());
    assert_eq!(tokenize(" \t\n"), Vec::<String>::new());
}

#[test]
fn tokenize_keeps_a_single_word() {
    assert_eq!(tokenize("tsc"), texts(&["tsc"]));
}

#[test]
fn tokenize_splits_on_ascii_whitespace_only() {
    assert_eq!(tokenize("a\u{a0}b c"), texts(&["a\u{a0}b", "c"]));
    assert_eq!(tokenize("pr\u{e9}lude \u{4e2d}\u{6587}"), texts(&["pr\u{e9}lude", "\u{4e2d}\u{6587}"]));
}

#[test]
fn tokenize_agrees_with_std() {
    for command in ["prettier --write", " x  y ", "one", "", "a\tb\nc", "\u{3000}a b"] {
        let expected: Vec<String> =
            command.split_ascii_whitespace().map(|s| s.to_string()).collect();
        assert_eq!(tokenize(command), expected);
    }
}

#[test]
fn whitespace_is_the_five_ascii_characters() {
    for c in [' ', '\t', '\n', '\x0C', '\r'] {
        assert!(is_whitespace(c));
    }
    for c in ['a', '\x0B', '\u{a0}', '0', '\0'] {
        assert!(!is_whitespace(c));
    }
}

#[test]
fn invocation_appends_the_files() {
    let line = invocation("eslint --fix", &texts(&["a.js"]), "/repo").unwrap();
    assert_eq!(
        line,
        Invocation {
            program: "eslint".to_string(),
            args: texts(&["--fix", "a.js"]),
            cwd: "/repo".to_string(),
        }
    );
}

#[test]
fn invocation_without_files_has_the_prefix_only() {
    let line = invocation("tsc", &Vec::new(), "").unwrap();
    assert_eq!(
        line,
        Invocation { program: "tsc".to_string(), args: Vec::new(), cwd: "".to_string() }
    );
}

#[test]
fn invocation_keeps_the_order_of_the_files() {
    let line = invocation("cmd -a -b", &texts(&["z", "y", "z"]), "/w").unwrap();
    assert_eq!(line.cwd, "/w");
    assert_eq!(line.program, "cmd");
    assert_eq!(line.args, texts(&["-a", "-b", "z", "y", "z"]));
}

#[test]
fn invocation_of_a_blank_command_is_none() {
    assert_eq!(invocation("", &texts(&["a.js"]), "/repo"), None);
    assert_eq!(invocation("   ", &Vec::new(), "/repo"), None);
}
