//! The time zone in which the schedules run, named as in the IANA database.
use vstd::prelude::*;
use crate::error::Error;

verus! {

#[verifier::external_type_specification]
#[verifier::external_body]
pub struct ExTz(chrono_tz::Tz);

#[verifier::external_type_specification]
#[verifier::external_body]
pub struct ExTzParseError(chrono_tz::ParseError);

/// Whether chrono-tz's database has a time zone of exactly this name.
pub uninterp spec fn timezone_known(name: Seq<char>) -> bool;

/// The time zone of this name in chrono-tz's database.
pub uninterp spec fn timezone_named(name: Seq<char>) -> chrono_tz::Tz;

/// `<chrono_tz::Tz as FromStr>::from_str`. Claimed: it succeeds exactly on
/// the names that chrono-tz's database holds, case included, and gives the
/// zone of that name (the source looks the name up in a fixed map built from
/// the database); which names and zones those are is left unsaid.
#[verifier::external_body]
fn timezone_from_str(name: &str) -> (r: Result<chrono_tz::Tz, chrono_tz::ParseError>)
    ensures
        r is Ok <==> timezone_known(name@),
        r matches Ok(tz) ==> tz == timezone_named(name@),
{
    <chrono_tz::Tz as std::str::FromStr>::from_str(name)
}

/// The `Display` text of `chrono_tz::ParseError`, which its source writes as a
/// constant.
#[verifier::external_body]
fn timezone_error_text(e: &chrono_tz::ParseError) -> (r: String)
    ensures
        r@ == "failed to parse timezone"@,
{
    e.to_string()
}

/// The time zone of a name, such as `Europe/Paris`; an unknown name gives the
/// error `ParseTimezone`.
pub fn parse_timezone(name: &str) -> (r: Result<chrono_tz::Tz, Error>)
    ensures
        r is Ok <==> timezone_known(name@),
        r matches Ok(tz) ==> tz == timezone_named(name@),
        r matches Err(e) ==> (e matches Error::ParseTimezone(t) && t@
            == "failed to parse timezone"@),
{
    match timezone_from_str(name) {
        Ok(tz) => Ok(tz),
        Err(e) => Err(Error::ParseTimezone(timezone_error_text(&e))),
    }
}

} // verus!
