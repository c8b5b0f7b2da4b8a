//! The environment that the bot was started in.
use vstd::prelude::*;
use crate::text::same_text;

verus! {

/// Development registers the bot's commands in one test guild; production
/// registers them for every guild.
#[derive(Debug, Clone, Copy, PartialEq, Eq, Structural)]
pub enum Environment {
    Development,
    Production,
}

/// The environment that the setting `COMPILE_ENVIRONMENT` selects: `dev`
/// selects development; any other value, or none, production.
pub open spec fn environment_of(setting: Option<Seq<char>>) -> Environment {
    match setting {
        Some(v) => if v == "dev"@ {
            Environment::Development
        } else {
            Environment::Production
        },
        None => Environment::Production,
    }
}

/// The name of an environment, as `Display` writes it.
pub open spec fn environment_name(e: Environment) -> Seq<char> {
    match e {
        Environment::Development => "development"@,
        Environment::Production => "production"@,
    }
}

impl Environment {
    /// The environment for the value of `COMPILE_ENVIRONMENT`, `None` when the
    /// variable is unset or not Unicode.
    pub fn from_setting(setting: Option<&str>) -> (r: Environment)
        ensures
            r == environment_of(
                match setting {
                    Some(s) => Some(s@),
                    None => None,
                },
            ),
    {
        match setting {
            Some(v) => if same_text(v, "dev") {
                Environment::Development
            } else {
                Environment::Production
            },
            None => Environment::Production,
        }
    }

    /// The name of the environment.
    pub fn to_string(&self) -> (r: String)
        ensures
            r@ == environment_name(*self),
    {
        let mut s = String::new();
        match self {
            Environment::Development => s.append("development"),
            Environment::Production => s.append("production"),
        }
        s
    }
}

} // verus!
