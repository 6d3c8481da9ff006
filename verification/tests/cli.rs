use splittea::cli::{parse_args, settings_from, Cli, CliError, Given, Refusal};

fn args(list: &[&str]) -> Vec<String> {
    list.iter().map(|s| s.to_string()).collect()
}

fn some(text: &str) -> Option<String> {
    Some(text.to_string())
}

fn cli(database: &str, token: &str) -> Cli {
    Cli { database: database.to_string(), token: token.to_string() }
}

fn parse(list: &[&str], env_database: Option<&str>, env_token: Option<&str>) -> Result<Cli, CliError> {
    parse_args(
        &args(list),
        env_database.map(|s| s.to_string()),
        env_token.map(|s| s.to_string()),
        "d.sqlite".to_string(),
    )
}

fn refusal(result: Result<Cli, CliError>) -> Refusal {
    match result {
        Err(CliError::Refused(refusal)) => refusal,
        other => panic!("no refusal: {:?}", other),
    }
}

#[test]
fn options_are_read_in_both_forms() {
    assert_eq!(parse(&["-d", "a.sqlite", "-t", "123:abc"], None, None), Ok(cli("a.sqlite", "123:abc")));
    assert_eq!(parse(&["--token", "123:abc", "--database", "a.sqlite"], None, None), Ok(cli("a.sqlite", "123:abc")));
}

#[test]
fn a_value_may_be_joined_to_its_option() {
    assert_eq!(parse(&["--token=abc"], None, None), Ok(cli("d.sqlite", "abc")));
    assert_eq!(parse(&["--database=a.sqlite", "--token=abc"], None, None), Ok(cli("a.sqlite", "abc")));
    assert_eq!(parse(&["-tabc"], None, None), Ok(cli("d.sqlite", "abc")));
    assert_eq!(parse(&["-t=abc", "-d=a.sqlite"], None, None), Ok(cli("a.sqlite", "abc")));
    assert_eq!(parse(&["--token=a=b"], None, None), Ok(cli("d.sqlite", "a=b")));
}

#[test]
fn the_command_line_wins_over_the_environment() {
    assert_eq!(
        parse(&["-d", "a.sqlite", "-t", "arg"], Some("e.sqlite"), Some("env")),
        Ok(cli("a.sqlite", "arg"))
    );
}

#[test]
fn the_environment_fills_what_is_left_out() {
    assert_eq!(parse(&[], Some("e.sqlite"), Some("env")), Ok(cli("e.sqlite", "env")));
    assert_eq!(parse(&["-t", "arg"], Some("e.sqlite"), None), Ok(cli("e.sqlite", "arg")));
    assert_eq!(parse(&["-d", "a.sqlite"], None, Some("env")), Ok(cli("a.sqlite", "env")));
}

#[test]
fn the_database_has_a_default() {
    assert_eq!(parse(&["-t", "arg"], None, None), Ok(cli("d.sqlite", "arg")));
    assert_eq!(parse(&[], None, Some("env")), Ok(cli("d.sqlite", "env")));
}

#[test]
fn the_token_has_no_default() {
    assert_eq!(parse(&[], None, None), Err(CliError::MissingToken));
    assert_eq!(parse(&["-d", "a.sqlite"], Some("e.sqlite"), None), Err(CliError::MissingToken));
}

#[test]
fn a_value_does_not_look_like_an_option() {
    assert_eq!(refusal(parse(&["-d", "-t", "-t", "--token"], None, None)).exit_code, 2);
    assert_eq!(refusal(parse(&["--token", "--database"], None, Some("env"))).exit_code, 2);
}

#[test]
fn an_unknown_argument_is_refused() {
    let wrong = refusal(parse(&["-t", "arg", "--verbose"], None, None));
    assert_eq!(wrong.exit_code, 2);
    assert!(wrong.message.contains("--verbose"));
    assert_eq!(refusal(parse(&["file"], None, Some("env"))).exit_code, 2);
}

#[test]
fn an_option_without_its_value_is_refused() {
    assert_eq!(refusal(parse(&["-t"], None, Some("env"))).exit_code, 2);
    assert_eq!(refusal(parse(&["-t", "arg", "--database"], None, None)).exit_code, 2);
}

#[test]
fn an_option_given_twice_is_refused() {
    assert_eq!(refusal(parse(&["-t", "a", "--token", "b"], None, None)).exit_code, 2);
    assert_eq!(refusal(parse(&["-d", "a", "-t", "x", "-d", "b"], None, None)).exit_code, 2);
}

#[test]
fn help_and_version_are_no_faults() {
    let help = refusal(parse(&["--help"], None, None));
    assert_eq!(help.exit_code, 0);
    assert!(help.message.contains("--database <FILE>"));
    assert!(help.message.contains("--token <BOT TOKEN>"));
    assert!(help.message.contains("Path to the SQLite database file (tries to create if not exists)"));
    assert_eq!(refusal(parse(&["-h"], None, Some("env"))).exit_code, 0);
    let version = refusal(parse(&["--version"], None, Some("env")));
    assert_eq!(version.exit_code, 0);
    assert_eq!(version.message, "splittea 0.1.0\n");
    assert_eq!(refusal(parse(&["-V"], None, None)).exit_code, 0);
}

#[test]
fn settings_from_goes_by_precedence() {
    let given = |database: Option<&str>, token: Option<&str>| Given {
        database: database.map(|s| s.to_string()),
        token: token.map(|s| s.to_string()),
    };
    let default = || "d.sqlite".to_string();
    assert_eq!(settings_from(given(Some("a"), Some("t")), some("e"), some("u"), default()), Ok(cli("a", "t")));
    assert_eq!(settings_from(given(None, None), some("e"), some("u"), default()), Ok(cli("e", "u")));
    assert_eq!(settings_from(given(None, Some("t")), None, some("u"), default()), Ok(cli("d.sqlite", "t")));
    assert_eq!(settings_from(given(Some("a"), None), None, some("u"), default()), Ok(cli("a", "u")));
    assert_eq!(settings_from(given(Some("a"), None), some("e"), None, default()), Err(CliError::MissingToken));
    assert_eq!(settings_from(given(Some(""), Some("")), some("e"), some("u"), default()), Ok(cli("", "")));
}
