use rslint_staged::cli::{CliInput, CliOptions};

fn input(cwd: Option<&str>) -> CliInput {
    CliInput {
        allow_empty: true,
        quiet: false,
        relative: true,
        concurrent: true,
        config: Some("custom.json".to_string()),
        cwd: cwd.map(|s| s.to_string()),
        shell: false,
        debug: true,
        verbose: false,
        no_stash: true,
    }
}

#[test]
fn the_named_directory_wins() {
    let options = CliOptions::from_input(input(Some("/work")), "/current".to_string());
    assert_eq!(options.cwd, "/work");
}

#[test]
fn the_current_directory_is_the_fallback() {
    let options = CliOptions::from_input(input(None), "/current".to_string());
    assert_eq!(options.cwd, "/current");
}

#[test]
fn every_other_option_is_taken_over() {
    let options = CliOptions::from_input(input(None), "/current".to_string());
    assert_eq!(
        options,
        CliOptions {
            allow_empty: true,
            quiet: false,
            relative: true,
            concurrent: true,
            config: Some("custom.json".to_string()),
            cwd: "/current".to_string(),
            shell: false,
            debug: true,
            verbose: false,
            no_stash: true,
        }
    );
}
