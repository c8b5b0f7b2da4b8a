//! Errors of the bot. Errors that other crates report are held as their
//! text.
use vstd::prelude::*;

verus! {

/// Why an operation of the bot failed.
#[derive(Debug, Clone, PartialEq)]
pub enum Error {
    /// Answering a slash command failed; the text is the Discord client's error.
    CommandResponse(String),
    /// Creating a slash command failed; the text is the Discord client's error.
    CreateCommand(String),
    /// Creating the job scheduler failed; the text is the scheduler's error.
    CreateScheduler(String),
    /// Creating a cron job failed: the scheduler's error, and a description.
    CreateCronJob(String, String),
    /// Creating several cron jobs failed; the message of each error.
    CannotCreateMultipleCronJob(Vec<String>),
    /// A cron expression did not parse; the text is the scheduler's error.
    ParseCronExpr(String),
    /// A time zone name did not parse.
    ParseTimezone(String),
    /// An environment variable could not be read.
    EnvVar(String),
    /// The Discord client failed.
    Serenity(String),
    /// Reading or writing a file failed.
    Io(String),
    /// JSON could not be read or written.
    SerializeOrDeserializeJson(String),
}

/// The message of an error, as the bot shows it.
pub open spec fn error_message(e: Error) -> Seq<char> {
    match e {
        Error::CommandResponse(_) => "Cannot respond to slash command"@,
        Error::CreateCommand(_) => "Cannot create slash command"@,
        Error::CreateScheduler(_) => "Cannot create scheduler"@,
        Error::CreateCronJob(_, what) => "Cannot create cron job: "@ + what@,
        Error::CannotCreateMultipleCronJob(_) => "Cannot create multiple cron jobs"@,
        Error::ParseCronExpr(_) => "Cannot parse cron expression"@,
        Error::ParseTimezone(t) => t@,
        Error::EnvVar(t) => t@,
        Error::Serenity(t) => t@,
        Error::Io(t) => t@,
        Error::SerializeOrDeserializeJson(t) => t@,
    }
}

impl Error {
    /// The message of this error.
    pub fn to_string(&self) -> (r: String)
        ensures
            r@ == error_message(*self),
    {
        let mut s = String::new();
        match self {
            Error::CommandResponse(_) => s.append("Cannot respond to slash command"),
            Error::CreateCommand(_) => s.append("Cannot create slash command"),
            Error::CreateScheduler(_) => s.append("Cannot create scheduler"),
            Error::CreateCronJob(_, what) => {
                s.append("Cannot create cron job: ");
                s.append(what.as_str());
            },
            Error::CannotCreateMultipleCronJob(_) => s.append("Cannot create multiple cron jobs"),
            Error::ParseCronExpr(_) => s.append("Cannot parse cron expression"),
            Error::ParseTimezone(t) => s.append(t.as_str()),
            Error::EnvVar(t) => s.append(t.as_str()),
            Error::Serenity(t) => s.append(t.as_str()),
            Error::Io(t) => s.append(t.as_str()),
            Error::SerializeOrDeserializeJson(t) => s.append(t.as_str()),
        }
        s
    }
}

} // verus!
