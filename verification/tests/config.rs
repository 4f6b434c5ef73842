use acro::config::parse_usize;
use acro::config::resolve_config;

#[test]
fn parse_accepts_plain_digits() {
    assert_eq!(parse_usize("12"), Some(12));
    assert_eq!(parse_usize("0"), Some(0));
    assert_eq!(parse_usize("007"), Some(7));
}

#[test]
fn parse_accepts_leading_plus() {
    assert_eq!(parse_usize("+42"), Some(42));
}

#[test]
fn parse_rejects_everything_else() {
    assert_eq!(parse_usize(""), None);
    assert_eq!(parse_usize("+"), None);
    assert_eq!(parse_usize("++1"), None);
    assert_eq!(parse_usize("1a"), None);
    assert_eq!(parse_usize("a1"), None);
    assert_eq!(parse_usize(" 1"), None);
    assert_eq!(parse_usize("1 "), None);
    assert_eq!(parse_usize("-1"), None);
    assert_eq!(parse_usize("1.5"), None);
}

#[test]
fn parse_checks_the_usize_range() {
    assert_eq!(parse_usize("18446744073709551615"), Some(usize::MAX));
    assert_eq!(parse_usize("18446744073709551616"), None);
    assert_eq!(parse_usize("99999999999999999999999"), None);
}

#[test]
fn parse_agrees_with_std() {
    for s in ["12", "+42", "0", "", "+", "1a", " 1", "18446744073709551615", "18446744073709551616"] {
        assert_eq!(parse_usize(s), s.parse::<usize>().ok());
    }
}

fn resolve(
    file_flag: Option<&str>,
    file_env: Option<&str>,
    acro_flag: Option<usize>,
    acro_env: Option<&str>,
    definition_flag: Option<usize>,
    definition_env: Option<&str>,
) -> (acro::Config, bool) {
    resolve_config(
        String::from("NATO"),
        file_flag.map(String::from),
        file_env.map(String::from),
        acro_flag,
        acro_env.map(String::from),
        definition_flag,
        definition_env.map(String::from),
        false,
        false,
        false,
        false,
    )
}

#[test]
fn file_flag_beats_environment() {
    let (config, warned) = resolve(Some("flag.csv"), Some("env.csv"), None, None, None, None);
    assert_eq!(config.file, "flag.csv");
    assert!(!warned);
}

#[test]
fn file_falls_back_to_environment() {
    let (config, warned) = resolve(None, Some("env.csv"), None, None, None, None);
    assert_eq!(config.file, "env.csv");
    assert!(!warned);
}

#[test]
fn unresolved_file_warns_but_resolves() {
    let (config, warned) = resolve(None, None, None, None, None, None);
    assert_eq!(config.file, "");
    assert!(warned);
    assert_eq!(config.acronym, "NATO");
}

#[test]
fn column_flag_beats_environment() {
    let (config, _) = resolve(None, None, Some(3), Some("7"), Some(5), Some("9"));
    assert_eq!(config.acro_column, 2);
    assert_eq!(config.definition_column, 4);
}

#[test]
fn column_falls_back_to_environment() {
    let (config, _) = resolve(None, None, None, Some("7"), None, Some("9"));
    assert_eq!(config.acro_column, 6);
    assert_eq!(config.definition_column, 8);
}

#[test]
fn invalid_environment_column_is_ignored() {
    let (config, _) = resolve(None, None, None, Some("seven"), None, Some("9.5"));
    assert_eq!(config.acro_column, 0);
    assert_eq!(config.definition_column, 1);
}

#[test]
fn column_defaults_are_first_and_second() {
    let (config, _) = resolve(None, None, None, None, None, None);
    assert_eq!(config.acro_column, 0);
    assert_eq!(config.definition_column, 1);
}

#[test]
fn switches_resolve_from_flag_or_presence() {
    let switches = |flag: bool, env: bool| {
        let (config, _) = resolve_config(
            String::from("q"),
            None,
            None,
            None,
            None,
            None,
            None,
            flag,
            env,
            flag,
            env,
        );
        (config.header, config.color)
    };
    assert_eq!(switches(true, false), (true, true));
    assert_eq!(switches(false, true), (true, true));
    assert_eq!(switches(true, true), (true, true));
    assert_eq!(switches(false, false), (false, false));
}
