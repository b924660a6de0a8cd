//! What is logged, and in which time zone.

use crate::config::{EnvMode, LoggingConfig, LoggingFormat, TimeConfig};
use crate::log_filter::{reads_safely, text_reads_safely};
use crate::text::{is_blank, trim};
use chrono_tz::Tz;
use tracing_subscriber::EnvFilter;
use vstd::prelude::*;

verus! {

/// How the proxy logs: by which filter, whether it names the module and writes to
/// a file as well, in which form and in which time zone.
#[derive(Debug, Clone)]
pub struct LogPlan {
    pub level: String,
    pub dev: bool,
    pub format: LoggingFormat,
    pub timezone: String,
}

/// The level from which on is logged where nothing else is said.
pub open spec fn level_in(mode: EnvMode) -> Seq<char> {
    match mode {
        EnvMode::Dev => "debug"@,
        EnvMode::Prod => "info"@,
    }
}

/// The level from which on is logged where nothing else is said.
pub fn default_level(mode: EnvMode) -> (r: &'static str)
    ensures
        r@ == level_in(mode),
{
    match mode {
        EnvMode::Dev => "debug",
        EnvMode::Prod => "info",
    }
}

/// Whether `tracing_subscriber` takes the text for a filter.
pub uninterp spec fn is_log_filter(text: Seq<char>) -> bool;

/// `EnvFilter::try_new`: whether it takes the text for a filter. How long a
/// pattern in the text takes to build is left open.
#[verifier::external_body]
fn log_filter_known(text: &str) -> (r: bool)
    requires
        reads_safely(text@),
    ensures
        r == is_log_filter(text@),
{
    EnvFilter::try_new(text).is_ok()
}

/// Whether `chrono_tz` knows a time zone of this name.
pub uninterp spec fn is_time_zone(name: Seq<char>) -> bool;

/// `Tz::from_str`, by way of `str::parse`: whether it knows a time zone of this name.
#[verifier::external_body]
fn time_zone_known(name: &str) -> (r: bool)
    ensures
        r == is_time_zone(name@),
{
    name.parse::<Tz>().is_ok()
}

/// Whether the text of a level can be used: it can be handed to the parser of
/// filters, and that takes it for one.
pub open spec fn is_usable_level(text: Seq<char>) -> bool {
    reads_safely(text) && is_log_filter(text)
}

/// Whether the proxy logs as the configuration says, given whether the level can
/// be read and whether the time zone is known: a level that is blank or cannot be
/// read is replaced by the one for the mode, and an unknown time zone by UTC.
pub open spec fn is_log_plan(
    plan: LogPlan,
    mode: EnvMode,
    logging: LoggingConfig,
    time: TimeConfig,
    readable: bool,
    known: bool,
) -> bool {
    &&& plan.level@ == if trim(logging.level@).len() == 0 || !readable {
        level_in(mode)
    } else {
        logging.level@
    }
    &&& plan.dev == (mode == EnvMode::Dev)
    &&& plan.format == logging.format
    &&& plan.timezone@ == if known {
        time.timezone@
    } else {
        "UTC"@
    }
}

/// How the proxy logs, given whether the level can be read and whether the time
/// zone is known.
pub fn log_plan_given(
    mode: EnvMode,
    logging: &LoggingConfig,
    time: &TimeConfig,
    readable: bool,
    known: bool,
) -> (r: LogPlan)
    ensures
        is_log_plan(r, mode, *logging, *time, readable, known),
{
    let level = if is_blank(logging.level.as_str()) || !readable {
        String::from_str(default_level(mode))
    } else {
        logging.level.clone()
    };
    let timezone = if known {
        time.timezone.clone()
    } else {
        String::from_str("UTC")
    };
    LogPlan { level, dev: mode == EnvMode::Dev, format: logging.format, timezone }
}

/// How the proxy logs. A level whose text cannot be handed to the parser of
/// filters, because a cut would fall inside a character, counts as one that cannot
/// be read.
pub fn log_plan(mode: EnvMode, logging: &LoggingConfig, time: &TimeConfig) -> (r: LogPlan)
    ensures
        is_log_plan(
            r,
            mode,
            *logging,
            *time,
            is_usable_level(logging.level@),
            is_time_zone(time.timezone@),
        ),
{
    let level = logging.level.as_str();
    let readable = text_reads_safely(level) && log_filter_known(level);
    let known = time_zone_known(time.timezone.as_str());
    log_plan_given(mode, logging, time, readable, known)
}

/// A level that is no filter never keeps the proxy from logging: the level for the
/// mode is used in its place, and so is it for a blank one.
pub proof fn an_unusable_level_gives_that_of_the_mode(
    plan: LogPlan,
    mode: EnvMode,
    logging: LoggingConfig,
    time: TimeConfig,
    known: bool,
)
    requires
        is_log_plan(plan, mode, logging, time, is_usable_level(logging.level@), known),
    ensures
        !is_log_filter(logging.level@) || trim(logging.level@).len() == 0 ==> plan.level@
            == level_in(mode),
        is_usable_level(logging.level@) && trim(logging.level@).len() > 0 ==> plan.level@
            == logging.level@,
{
}

/// A plan has the form that is configured and the marks of the mode, and the time zone that
/// is configured or, where that is unknown, UTC.
pub proof fn what_a_log_plan_says(
    plan: LogPlan,
    mode: EnvMode,
    logging: LoggingConfig,
    time: TimeConfig,
    readable: bool,
    known: bool,
)
    requires
        is_log_plan(plan, mode, logging, time, readable, known),
    ensures
        plan.format == logging.format,
        plan.dev <==> mode == EnvMode::Dev,
        known ==> plan.timezone@ == time.timezone@,
        !known ==> plan.timezone@ == "UTC"@,
        readable && trim(logging.level@).len() > 0 ==> plan.level@ == logging.level@,
        !readable || trim(logging.level@).len() == 0 ==> plan.level@ == match mode {
            EnvMode::Dev => "debug"@,
            EnvMode::Prod => "info"@,
        },
{
}

/// The configured level is used if it is not blank, can be handed to the parser of filters
/// and is one; for want of any of these the level for the mode is used.
pub proof fn when_the_configured_level_is_used(
    plan: LogPlan,
    mode: EnvMode,
    logging: LoggingConfig,
    time: TimeConfig,
)
    requires
        is_log_plan(
            plan,
            mode,
            logging,
            time,
            is_usable_level(logging.level@),
            is_time_zone(time.timezone@),
        ),
    ensures
        trim(logging.level@).len() > 0 && reads_safely(logging.level@) && is_log_filter(
            logging.level@,
        ) ==> plan.level@ == logging.level@,
        trim(logging.level@).len() == 0 || !reads_safely(logging.level@) || !is_log_filter(
            logging.level@,
        ) ==> plan.level@ == match mode {
            EnvMode::Dev => "debug"@,
            EnvMode::Prod => "info"@,
        },
        is_time_zone(time.timezone@) ==> plan.timezone@ == time.timezone@,
{
}

} // verus!
