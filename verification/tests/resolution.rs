use pesn::{is_destination_url, parse_pid, resolve_configuration, ConfigFile, Error};

const URL: &str = "https://hooks.slack.com/services/T000/B000/XXXX";

#[test]
fn literal_url_is_recognized() {
    assert!(is_destination_url(URL));
}

#[test]
fn exact_prefix_alone_is_recognized() {
    assert!(is_destination_url("https://hooks.slack.com/services"));
}

#[test]
fn prefix_with_garbage_tail_is_recognized() {
    assert!(is_destination_url("https://hooks.slack.com/services%%% not a url at all"));
}

#[test]
fn short_string_is_not_a_url() {
    assert!(!is_destination_url("team-a"));
    assert!(!is_destination_url("https://hooks.slack.com/service"));
}

#[test]
fn wrong_prefix_is_not_a_url() {
    assert!(!is_destination_url("https://hooks.slack.com/Services/T000/B000/XXXX"));
    assert!(!is_destination_url("http://hooks.slack.com/services/T000/B000/XXXX"));
}

#[test]
fn pid_parses_plain_and_signed() {
    assert_eq!(parse_pid("123"), Ok(123));
    assert_eq!(parse_pid("+7"), Ok(7));
    assert_eq!(parse_pid("-5"), Ok(-5));
    assert_eq!(parse_pid("007"), Ok(7));
}

#[test]
fn pid_bounds_are_those_of_i32() {
    assert_eq!(parse_pid("2147483647"), Ok(2147483647));
    assert_eq!(parse_pid("2147483648"), Err(Error::Argument));
    assert_eq!(parse_pid("-2147483648"), Ok(-2147483648));
    assert_eq!(parse_pid("-2147483649"), Err(Error::Argument));
}

#[test]
fn pid_rejects_malformed_tokens() {
    assert_eq!(parse_pid(""), Err(Error::Argument));
    assert_eq!(parse_pid("-"), Err(Error::Argument));
    assert_eq!(parse_pid("12x"), Err(Error::Argument));
    assert_eq!(parse_pid("1 2"), Err(Error::Argument));
}

#[test]
fn config_lookup_hits_and_misses() {
    let text = "{\"webhook_urls\": {\"team-a\": \"https://hooks.slack.com/services/X\"}}";
    let cf = ConfigFile::parse(text).unwrap();
    assert_eq!(
        cf.lookup("team-a"),
        Some("https://hooks.slack.com/services/X".to_string())
    );
    assert_eq!(cf.lookup("team-b"), None);
}

#[test]
fn config_parse_accepts_whitespace_and_many_members() {
    let text = "  {\n  \"webhook_urls\" : {\n    \"a\" : \"u1\" ,\n    \"b\" : \"u2\"\n  }\n}\n";
    let cf = ConfigFile::parse(text).unwrap();
    assert_eq!(cf.lookup("a"), Some("u1".to_string()));
    assert_eq!(cf.lookup("b"), Some("u2".to_string()));
}

#[test]
fn config_parse_accepts_empty_table() {
    let cf = ConfigFile::parse("{\"webhook_urls\": {}}").unwrap();
    assert_eq!(cf.lookup("anything"), None);
}

#[test]
fn config_later_member_wins() {
    let text = "{\"webhook_urls\": {\"a\": \"u1\", \"a\": \"u2\"}}";
    let cf = ConfigFile::parse(text).unwrap();
    assert_eq!(cf.lookup("a"), Some("u2".to_string()));
}

#[test]
fn config_decodes_string_escapes() {
    let text = "{\"webhook_urls\": {\"a\\tb\": \"u\\u0041\\\"v\"}}";
    let cf = ConfigFile::parse(text).unwrap();
    assert_eq!(cf.lookup("a\tb"), Some("uA\"v".to_string()));
}

#[test]
fn config_rejects_malformed_text() {
    assert!(ConfigFile::parse("").is_err());
    assert!(ConfigFile::parse("{}").is_err());
    assert!(ConfigFile::parse("{\"hooks\": {}}").is_err());
    assert!(ConfigFile::parse("{\"webhook_urls\": {\"a\": 1}}").is_err());
    assert!(ConfigFile::parse("{\"webhook_urls\": {}} trailing").is_err());
    assert!(ConfigFile::parse("{\"webhook_urls\": {\"a\": \"u\"").is_err());
}

#[test]
fn resolve_takes_literal_url_without_config() {
    let c = resolve_configuration("42", URL, None).unwrap();
    assert_eq!(c.webhook_url, URL);
    assert_eq!(c.pid, 42);
    assert_eq!(c.interval_seconds, 60);
}

#[test]
fn resolve_rejects_bad_pid_first() {
    assert!(matches!(
        resolve_configuration("nope", URL, None),
        Err(Error::Argument)
    ));
}

#[test]
fn resolve_key_hit_uses_config_table() {
    let text = "{\"webhook_urls\": {\"team-a\": \"https://hooks.slack.com/services/X\"}}";
    let c = resolve_configuration("1", "team-a", Some(text)).unwrap();
    assert_eq!(c.webhook_url, "https://hooks.slack.com/services/X");
    assert_eq!(c.interval_seconds, 60);
}

#[test]
fn resolve_key_miss_is_a_lookup_error() {
    let text = "{\"webhook_urls\": {\"team-a\": \"https://hooks.slack.com/services/X\"}}";
    assert!(matches!(
        resolve_configuration("1", "team-b", Some(text)),
        Err(Error::ConfigLookup)
    ));
}

#[test]
fn resolve_unreadable_config_is_a_read_error() {
    assert!(matches!(
        resolve_configuration("1", "team-a", None),
        Err(Error::ConfigRead)
    ));
}

#[test]
fn resolve_bad_config_text_is_a_parse_error() {
    assert!(matches!(
        resolve_configuration("1", "team-a", Some("not json")),
        Err(Error::ConfigParse)
    ));
}

#[test]
fn error_messages_match_their_kinds() {
    assert_eq!(Error::Argument.message(), "failed to cast pid to number");
    assert_eq!(Error::ConfigRead.message(), "failed to read config file");
    assert_eq!(Error::ConfigParse.message(), "failed to parse config file");
    assert_eq!(Error::ConfigLookup.message(), "failed to resolve destination");
    assert_eq!(Error::ProcessNotFound.message(), "no exists process");
    assert_eq!(Error::Network.message(), "failed to send webhook");
}

#[test]
fn destination_check_handles_multibyte_characters() {
    // a multibyte character after the 32-character prefix does not matter
    assert!(is_destination_url("https://hooks.slack.com/servicesé"));
    // one inside the prefix breaks the match
    assert!(!is_destination_url("https://hooks.slack.com/sérvices/T000/B000"));
}

#[test]
fn pid_rejects_sign_without_digits_after_it() {
    assert_eq!(parse_pid("+-1"), Err(Error::Argument));
    assert_eq!(parse_pid("--1"), Err(Error::Argument));
}

#[test]
fn config_rejects_lone_surrogate_escapes() {
    assert!(ConfigFile::parse("{\"webhook_urls\": {\"a\": \"\\ud800\"}}").is_err());
}
