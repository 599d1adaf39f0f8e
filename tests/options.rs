use tetrs::clap::{bool_from_lowercase, clap_parse, BorderCorners, LaunchOptions, OptionError};
use tetrs::highscore::highscore_from_text;

#[test]
fn defaults_are_accepted() {
    assert_eq!(
        clap_parse(false, "3", "Plain", "1", "false"),
        Ok(LaunchOptions {
            version: false,
            color: 3,
            border: BorderCorners::Plain,
            start_level: 1,
            control_buttons: false,
        })
    );
}

#[test]
fn values_are_read() {
    let o = clap_parse(true, "+15", "Rounded", "12", "TrUe").unwrap();
    assert!(o.version);
    assert_eq!(o.color, 15);
    assert_eq!(o.border, BorderCorners::Rounded);
    assert_eq!(o.start_level, 12);
    assert!(o.control_buttons);
}

#[test]
fn each_option_is_checked() {
    assert_eq!(clap_parse(false, "16", "Plain", "1", "false"), Err(OptionError::Color));
    assert_eq!(clap_parse(false, "-1", "Plain", "1", "false"), Err(OptionError::Color));
    assert_eq!(clap_parse(false, "red", "Plain", "1", "false"), Err(OptionError::Color));
    assert_eq!(clap_parse(false, "0", "plain", "1", "false"), Err(OptionError::BorderCorners));
    assert_eq!(clap_parse(false, "0", "Plain", "0", "false"), Err(OptionError::StartLevel));
    assert_eq!(clap_parse(false, "0", "Plain", "99999999999999999999", "false"), Err(OptionError::StartLevel));
    assert_eq!(clap_parse(false, "0", "Plain", "15", "yes"), Err(OptionError::ControlButtons));
    assert_eq!(clap_parse(false, "99", "nope", "0", "maybe"), Err(OptionError::Color));
}

#[test]
fn stored_highscore_text() {
    assert_eq!(highscore_from_text("1250"), 1250);
    assert_eq!(highscore_from_text("+7"), 7);
    assert_eq!(highscore_from_text("0"), 0);
    assert_eq!(highscore_from_text("-3"), 0);
    assert_eq!(highscore_from_text("12\n"), 0);
    assert_eq!(highscore_from_text("4294967296"), 0);
    assert_eq!(highscore_from_text("4294967295"), u32::MAX);
}

#[test]
fn lowercased_switch_text() {
    assert_eq!(bool_from_lowercase("true"), Some(true));
    assert_eq!(bool_from_lowercase("false"), Some(false));
    assert_eq!(bool_from_lowercase("True"), None);
    assert_eq!(bool_from_lowercase(""), None);
}
