use vstd::prelude::*;

verus! {

/// A parsed cron schedule, carried through to the scheduler that fires it.
#[verifier::external_type_specification]
#[verifier::external_body]
pub struct ExSchedule(cron::Schedule);

/// Why the cron crate refused an expression.
#[verifier::external_type_specification]
#[verifier::external_body]
pub struct ExCronError(cron::error::Error);

/// Whether the cron crate accepts `expr` as a schedule expression.
pub uninterp spec fn cron_accepts(expr: Seq<char>) -> bool;

/// Relies on cron's `Schedule::from_str`: it parses an expression and fails
/// with a `cron::error::Error` where the text is not one; the outcome
/// depends on the text alone.
#[verifier::external_body]
pub(crate) fn parse_schedule(expr: &str) -> (r: Result<cron::Schedule, cron::error::Error>)
    ensures
        r.is_ok() == cron_accepts(expr@),
{
    <cron::Schedule as std::str::FromStr>::from_str(expr)
}

} // verus!
