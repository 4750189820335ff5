//! Severity levels and their fixed short codes.

use vstd::prelude::*;

verus! {

/// Severity of a log record, from most to least severe.
#[derive(Clone, Copy, Debug, PartialEq, Eq, Structural)]
pub enum Level {
    Critical,
    Error,
    Warning,
    Info,
    Debug,
    Trace,
}

/// The fixed four-letter code of each severity.
pub open spec fn level_chars(l: Level) -> Seq<char> {
    match l {
        Level::Critical => "CRIT"@,
        Level::Error => "ERRO"@,
        Level::Warning => "WARN"@,
        Level::Info => "INFO"@,
        Level::Debug => "DEBG"@,
        Level::Trace => "TRCE"@,
    }
}

/// Map a severity to its short uppercase code.
pub fn level_to_string(level: Level) -> (r: &'static str)
    ensures
        r@ == level_chars(level),
{
    match level {
        Level::Critical => "CRIT",
        Level::Error => "ERRO",
        Level::Warning => "WARN",
        Level::Info => "INFO",
        Level::Debug => "DEBG",
        Level::Trace => "TRCE",
    }
}

/// Every severity has a code, the mapping is a function of the severity
/// alone, and each code is exactly four letters.
pub proof fn lemma_level_codes_total(l: Level)
    ensures
        level_chars(l).len() == 4,
{
    reveal_strlit("CRIT");
    reveal_strlit("ERRO");
    reveal_strlit("WARN");
    reveal_strlit("INFO");
    reveal_strlit("DEBG");
    reveal_strlit("TRCE");
}

/// Distinct severities have distinct codes.
pub proof fn lemma_level_codes_distinct(a: Level, b: Level)
    ensures
        a != b ==> level_chars(a) != level_chars(b),
{
    reveal_strlit("CRIT");
    reveal_strlit("ERRO");
    reveal_strlit("WARN");
    reveal_strlit("INFO");
    reveal_strlit("DEBG");
    reveal_strlit("TRCE");
    if a != b && level_chars(a) == level_chars(b) {
        assert(level_chars(a)[0] == level_chars(b)[0]);
        assert(level_chars(a)[1] == level_chars(b)[1]);
        assert(level_chars(a)[2] == level_chars(b)[2]);
        assert(level_chars(a)[3] == level_chars(b)[3]);
    }
}

} // verus!
