use roboclic::card::{after_choice, choose_option, start_card_dialogue, CardAction, CardState};
use roboclic::commands::{is_restricted_command, parse_command, AccessTier, Command, ParseError};
use roboclic::config::{config, find_var, ConfigError};
use roboclic::text::{equal_ignoring_ascii_case, secrets_match};

fn parse(text: &str) -> Result<Command, ParseError> {
    parse_command(text, "RoboBot")
}

#[test]
fn parses_plain_commands() {
    assert!(matches!(parse("/help"), Ok(Command::Help)));
    assert!(matches!(parse("/poll"), Ok(Command::Poll)));
    assert!(matches!(parse("/bureau"), Ok(Command::Bureau)));
    assert!(matches!(parse("/stats"), Ok(Command::Stats)));
    assert!(matches!(parse("/adminlist"), Ok(Command::AdminList)));
    assert!(matches!(parse("/authorizations"), Ok(Command::Authorizations)));
    assert!(matches!(parse("/help extra words"), Ok(Command::Help)));
}

#[test]
fn parses_arguments() {
    match parse("/adminremove Jean Dupont") {
        Ok(Command::AdminRemove(n)) => assert_eq!(n, "Jean Dupont"),
        other => panic!("unexpected {:?}", other),
    }
    match parse("/authorize poll") {
        Ok(Command::Authorize(c)) => assert_eq!(c, "poll"),
        other => panic!("unexpected {:?}", other),
    }
    match parse("/unauthorize stats") {
        Ok(Command::Unauthorize(c)) => assert_eq!(c, "stats"),
        other => panic!("unexpected {:?}", other),
    }
    match parse("/adminremove") {
        Ok(Command::AdminRemove(n)) => assert_eq!(n, ""),
        other => panic!("unexpected {:?}", other),
    }
}

#[test]
fn parses_authenticate_pair() {
    match parse("/authenticate tok3n Alice") {
        Ok(Command::Authenticate(t, n)) => {
            assert_eq!(t, "tok3n");
            assert_eq!(n, "Alice");
        }
        other => panic!("unexpected {:?}", other),
    }
    assert!(matches!(parse("/authenticate tok3n"), Err(ParseError::TooFewArguments)));
    assert!(matches!(parse("/authenticate"), Err(ParseError::TooFewArguments)));
    assert!(matches!(parse("/authenticate a b c"), Err(ParseError::TooManyArguments)));
}

#[test]
fn bot_name_must_match() {
    assert!(matches!(parse("/poll@RoboBot"), Ok(Command::Poll)));
    assert!(matches!(parse("/poll@robobot"), Ok(Command::Poll)));
    assert!(matches!(parse("/poll@OtherBot"), Err(ParseError::WrongBotName)));
    assert!(matches!(parse("/nothing@OtherBot"), Err(ParseError::WrongBotName)));
    match parse("/authorize@ROBOBOT poll") {
        Ok(Command::Authorize(c)) => assert_eq!(c, "poll"),
        other => panic!("unexpected {:?}", other),
    }
}

#[test]
fn unknown_text_is_not_a_command() {
    assert!(matches!(parse("hello"), Err(ParseError::UnknownCommand)));
    assert!(matches!(parse(""), Err(ParseError::UnknownCommand)));
    assert!(matches!(parse("/auth x y"), Err(ParseError::UnknownCommand)));
    assert!(matches!(parse("/Poll"), Err(ParseError::UnknownCommand)));
    assert!(matches!(parse(" /poll"), Err(ParseError::UnknownCommand)));
}

#[test]
fn short_names_and_tiers() {
    assert_eq!(Command::Help.shortand(), "help");
    assert_eq!(Command::Authenticate(String::new(), String::new()).shortand(), "auth");
    assert_eq!(Command::AdminRemove(String::new()).shortand(), "adminremove");
    assert_eq!(Command::Unauthorize(String::new()).shortand(), "unauthorize");
    assert_eq!(Command::Authorizations.shortand(), "authorizations");
    assert_eq!(Command::Poll.access_tier(), AccessTier::AuthorizedChat);
    assert_eq!(Command::Stats.access_tier(), AccessTier::AuthorizedChat);
    assert_eq!(Command::Help.access_tier(), AccessTier::Public);
    assert_eq!(Command::Authorize(String::new()).access_tier(), AccessTier::AdminOnly);
}

#[test]
fn restricted_commands() {
    assert!(is_restricted_command("poll"));
    assert!(is_restricted_command("bureau"));
    assert!(is_restricted_command("stats"));
    assert!(!is_restricted_command("help"));
    assert!(!is_restricted_command("authorize"));
    assert!(!is_restricted_command("Poll"));
}

fn vars(pairs: &[(&str, &str)]) -> Vec<(String, String)> {
    pairs.iter().map(|(k, v)| (k.to_string(), v.to_string())).collect()
}

fn full_env() -> Vec<(String, String)> {
    vars(&[
        ("BOT_TOKEN", "b"),
        ("CONFIG_FILE", "c.toml"),
        ("DATA_DIR", "/srv/data"),
        ("ADMIN_TOKEN", "a"),
        ("DIRECTUS_URL", "https://d"),
        ("DIRECTUS_TOKEN", "t"),
    ])
}

#[test]
fn config_from_variables() {
    let c = config(&full_env()).unwrap();
    assert_eq!(c.bot_token, "b");
    assert_eq!(c.config_file, "c.toml");
    assert_eq!(c.admin_token, "a");
    assert_eq!(c.directus_url, "https://d");
    assert_eq!(c.directus_token, "t");
    assert_eq!(c.database_url, None);
    assert_eq!(c.database_location(), "sqlite:///srv/data/db.sqlite");
    let mut env = full_env();
    env.push(("DATABASE_URL".to_string(), "sqlite://x.db".to_string()));
    let c = config(&env).unwrap();
    assert_eq!(c.database_url.as_deref(), Some("sqlite://x.db"));
    assert_eq!(c.database_location(), "sqlite://x.db");
}

#[test]
fn config_reports_first_missing_variable() {
    let env: Vec<(String, String)> =
        full_env().into_iter().filter(|(k, _)| k != "DATA_DIR" && k != "DIRECTUS_URL").collect();
    match config(&env) {
        Err(ConfigError::MissingVariable(n)) => assert_eq!(n, "DATA_DIR"),
        other => panic!("unexpected {:?}", other),
    }
    match config(&Vec::new()) {
        Err(ConfigError::MissingVariable(n)) => assert_eq!(n, "BOT_TOKEN"),
        other => panic!("unexpected {:?}", other),
    }
}

#[test]
fn first_variable_wins() {
    let env = vars(&[("A", "1"), ("B", "2"), ("A", "3")]);
    assert_eq!(find_var(&env, "A"), Some("1".to_string()));
    assert_eq!(find_var(&env, "C"), None);
}

#[test]
fn text_comparisons() {
    assert!(secrets_match("abc", "abc"));
    assert!(!secrets_match("abc", "abd"));
    assert!(!secrets_match("abc", "ab"));
    assert!(!secrets_match("", "a"));
    assert!(secrets_match("", ""));
    assert!(equal_ignoring_ascii_case("RoboBot", "robobot"));
    assert!(!equal_ignoring_ascii_case("robo", "robot"));
    assert!(!equal_ignoring_ascii_case("é", "É"));
}

#[test]
fn card_choices() {
    assert_eq!(start_card_dialogue("CLIC"), CardAction::Give);
    assert_eq!(start_card_dialogue("Alice"), CardAction::Return);
    assert_eq!(CardAction::Give.token(), "give_card");
    assert_eq!(choose_option("give_card"), CardAction::Give);
    assert_eq!(choose_option("return_card"), CardAction::Return);
    assert_eq!(choose_option("nothing"), CardAction::Nothing);
    assert_eq!(after_choice(CardAction::Give, 12), CardState::GiveCard { message_id: 12 });
    assert_eq!(after_choice(CardAction::Nothing, 12), CardState::Start);
}
