use r2d2wm::config::Config;

#[test]
fn test_construct_path_to() {
    let path = Config::construct_path_to(None, "test.json");
    assert_eq!(path, "config/test.json");
}

#[test]
fn test_construct_path_to_with_env() {
    let path = Config::construct_path_to(Some("test"), "test.json");
    assert_eq!(path, "test/test.json");
}

use r2d2wm::config::{AppSettings, MentionTarget, ScheduledMessage};
use r2d2wm::error::Error;
use r2d2wm::paths::{env_file_path, join_path};

fn app_settings() -> AppSettings {
    AppSettings {
        discord_token: "token".to_string(),
        logging_level: "info".to_string(),
        timezone: "Europe/Paris".to_string(),
    }
}

fn scheduled(mentions: Option<Vec<MentionTarget>>) -> ScheduledMessage {
    ScheduledMessage {
        name: "test".to_string(),
        cron: "0 0 * * * * *".to_string(),
        channel_id: 1,
        mentions,
        message: "test".to_string(),
    }
}

#[test]
fn paths_are_joined_as_on_unix() {
    assert_eq!(join_path("config", "a.json"), "config/a.json");
    assert_eq!(join_path("config/", "a.json"), "config/a.json");
    assert_eq!(join_path("", "a.json"), "a.json");
    assert_eq!(join_path("config", "/etc/a.json"), "/etc/a.json");
    for (d, f) in [("x", "y"), ("x/", "y"), ("", "y"), ("x", "/y"), ("x", "")] {
        let std_path = std::path::Path::new(d).join(f);
        assert_eq!(join_path(d, f), std_path.to_str().unwrap());
    }
}

#[test]
fn env_file_defaults_to_the_working_directory() {
    assert_eq!(env_file_path(None), "./.env");
    assert_eq!(env_file_path(Some("/config")), "/config/.env");
}

#[test]
fn load_keeps_both_parts() {
    let c = Config::load(Ok(app_settings()), Ok(vec![scheduled(None)])).unwrap();
    assert_eq!(c.app, app_settings());
    assert_eq!(c.schedules, vec![scheduled(None)]);
}

#[test]
fn load_reports_the_settings_error_first() {
    let e = Config::load(Err(Error::Io("no settings".to_string())), Err(Error::Io("no schedule".to_string())))
        .unwrap_err();
    assert_eq!(e, Error::Io("no settings".to_string()));
    let e = Config::load(Ok(app_settings()), Err(Error::SerializeOrDeserializeJson("bad".to_string())))
        .unwrap_err();
    assert_eq!(e.to_string(), "bad");
}

#[test]
fn scheduled_message_without_mentions() {
    assert_eq!(scheduled(None).build_discord_message(), "test");
    assert_eq!(scheduled(Some(vec![])).build_discord_message(), "test\n");
}

#[test]
fn scheduled_message_with_mentions() {
    let m = scheduled(Some(vec![MentionTarget::Role(5), MentionTarget::User(81384788765712384)]));
    assert_eq!(m.build_discord_message(), "test\n<@&5> <@81384788765712384>");
    let m = scheduled(Some(vec![MentionTarget::User(2)]));
    assert_eq!(m.build_discord_message(), "test\n<@2>");
}

#[test]
fn scheduled_messages_are_checked_for_zero_identifiers() {
    assert!(scheduled(None).is_wf());
    assert!(scheduled(Some(vec![MentionTarget::Role(3)])).is_wf());
    assert!(!scheduled(Some(vec![MentionTarget::Role(3), MentionTarget::User(0)])).is_wf());
    let mut m = scheduled(None);
    m.channel_id = 0;
    assert!(!m.is_wf());
}
