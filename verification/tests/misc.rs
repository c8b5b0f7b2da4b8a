use r2d2wm::timezone::parse_timezone;
use r2d2wm::api;
use r2d2wm::error::Error;
use r2d2wm::persistence::{guild_tasks_uri, task_uri, tasks_uri};
use r2d2wm::Environment;

#[test]
fn environment_from_setting() {
    assert_eq!(Environment::from_setting(Some("dev")), Environment::Development);
    assert_eq!(Environment::from_setting(Some("prod")), Environment::Production);
    assert_eq!(Environment::from_setting(Some("DEV")), Environment::Production);
    assert_eq!(Environment::from_setting(None), Environment::Production);
    assert_eq!(Environment::Development.to_string(), "development");
    assert_eq!(Environment::Production.to_string(), "production");
}

#[test]
fn api_addresses() {
    assert_eq!(guild_tasks_uri("http://localhost:8000", 42), "http://localhost:8000/tasks/guilds/42");
    assert_eq!(tasks_uri("http://api"), "http://api/tasks");
    assert_eq!(task_uri("http://api", 7), "http://api/tasks/7");
}

#[test]
fn api_error_statuses() {
    assert_eq!(api::Error::Internal("x".to_string()).status(), 500);
    assert_eq!(api::Error::ServiceUnavailable("x".to_string()).status(), 503);
    assert_eq!(api::Error::BadQuery("x".to_string()).status(), 400);
    assert_eq!(api::Error::NotFound("gone".to_string()).status(), 404);
    assert_eq!(api::Error::NotFound("gone".to_string()).body(), "gone");
}

#[test]
fn bot_error_messages() {
    assert_eq!(Error::CommandResponse("x".to_string()).to_string(), "Cannot respond to slash command");
    assert_eq!(
        Error::CreateCronJob("bad".to_string(), "job 1".to_string()).to_string(),
        "Cannot create cron job: job 1"
    );
    assert_eq!(Error::Io("disk".to_string()).to_string(), "disk");
    assert_eq!(Error::CannotCreateMultipleCronJob(vec![]).to_string(), "Cannot create multiple cron jobs");
}

#[test]
fn time_zones_are_parsed_by_exact_name() {
    assert_eq!(parse_timezone("Europe/Paris").unwrap(), chrono_tz::Europe::Paris);
    let e = parse_timezone("europe/paris").unwrap_err();
    assert_eq!(e, Error::ParseTimezone("failed to parse timezone".to_string()));
    assert_eq!(parse_timezone("Mars/Olympus").unwrap_err().to_string(), "failed to parse timezone");
}
