//! Diagnostics state: the current verbosity level and the number of warnings
//! reported so far.  The tool keeps one such state for its whole run; every
//! switch and counter operation goes through the functions below.

use vstd::prelude::*;
use crate::verbosity::Verbosity;

verus! {

/// What a diagnostics state holds, as mathematical values.
pub struct DiagnosticsState {
    pub verbosity: Verbosity,
    pub warnings: usize,
}

/// The level that a stored byte stands for: the byte of each level gives
/// that level back, and every larger byte reads as `Trace`.
pub open spec fn level_from_byte(b: u8) -> Verbosity {
    if b == 0 {
        Verbosity::Quiet
    } else if b == 1 {
        Verbosity::Normal
    } else if b == 2 {
        Verbosity::Verbose
    } else {
        Verbosity::Trace
    }
}

impl DiagnosticsState {
    /// The state of a run that has just started: `Normal` and no warnings.
    pub open spec fn initial() -> DiagnosticsState {
        DiagnosticsState { verbosity: Verbosity::Normal, warnings: 0 }
    }

    /// The state after the level is switched to `level`.
    pub open spec fn with_verbosity(self, level: Verbosity) -> DiagnosticsState {
        DiagnosticsState { verbosity: level, warnings: self.warnings }
    }

    /// The state after one more warning is counted; the counter wraps
    /// around to zero past `usize::MAX`.
    pub open spec fn with_warning_counted(self) -> DiagnosticsState {
        DiagnosticsState {
            verbosity: self.verbosity,
            warnings: if self.warnings == usize::MAX {
                0
            } else {
                (self.warnings + 1) as usize
            },
        }
    }

    /// Whether informational messages are shown.
    pub open spec fn shows_info(self) -> bool {
        self.verbosity.spec_level() >= Verbosity::Verbose.spec_level()
    }

    /// Whether trace messages are shown.
    pub open spec fn shows_trace(self) -> bool {
        self.verbosity.spec_level() >= Verbosity::Trace.spec_level()
    }

    /// Whether warnings are printed (they are counted in any case).
    pub open spec fn shows_warnings(self) -> bool {
        self.verbosity.spec_level() >= Verbosity::Normal.spec_level()
    }

    /// The state after `n` warnings are counted one after another.
    pub open spec fn with_warnings_counted(self, n: nat) -> DiagnosticsState
        decreases n,
    {
        if n == 0 {
            self
        } else {
            self.with_warnings_counted((n - 1) as nat).with_warning_counted()
        }
    }
}

/// The diagnostics state of a run: the verbosity level, kept as its byte,
/// and the warning counter.
pub struct Diagnostics {
    level: u8,
    warnings: usize,
}

impl View for Diagnostics {
    type V = DiagnosticsState;

    closed spec fn view(&self) -> DiagnosticsState {
        DiagnosticsState { verbosity: level_from_byte(self.level), warnings: self.warnings }
    }
}

impl Diagnostics {
    /// A fresh state: level `Normal`, no warnings counted.
    pub fn new() -> (d: Diagnostics)
        ensures
            d@ == DiagnosticsState::initial(),
    {
        Diagnostics { level: Verbosity::Normal.level(), warnings: 0 }
    }
}

impl Default for Diagnostics {
    fn default() -> (d: Self)
        ensures
            d@ == DiagnosticsState::initial(),
    {
        Diagnostics::new()
    }
}

/// Switches the verbosity level; the warning count stays as it is.
pub fn set_verbosity(diag: &mut Diagnostics, level: Verbosity)
    ensures
        final(diag)@ == old(diag)@.with_verbosity(level),
{
    diag.level = level.level();
}

/// The current verbosity level.
pub fn verbosity(diag: &Diagnostics) -> (v: Verbosity)
    ensures
        v == diag@.verbosity,
{
    match diag.level {
        0 => Verbosity::Quiet,
        1 => Verbosity::Normal,
        2 => Verbosity::Verbose,
        _ => Verbosity::Trace,
    }
}

/// Whether the level is `Verbose` or above, so that informational messages show.
pub fn is_verbose(diag: &Diagnostics) -> (b: bool)
    ensures
        b == diag@.shows_info(),
{
    verbosity(diag) >= Verbosity::Verbose
}

/// Whether the level is `Trace`, so that trace messages show.
pub fn is_trace(diag: &Diagnostics) -> (b: bool)
    ensures
        b == diag@.shows_trace(),
{
    verbosity(diag) >= Verbosity::Trace
}

/// Whether the level is `Normal` or above, so that warnings are printed.
pub fn warnings_enabled(diag: &Diagnostics) -> (b: bool)
    ensures
        b == diag@.shows_warnings(),
{
    verbosity(diag) >= Verbosity::Normal
}

/// Counts one more warning, whatever the level; the counter wraps around.
pub fn count_warning(diag: &mut Diagnostics)
    ensures
        final(diag)@ == old(diag)@.with_warning_counted(),
{
    diag.warnings = diag.warnings.wrapping_add(1);
}

/// The number of warnings counted so far.
pub fn warning_count(diag: &Diagnostics) -> (n: usize)
    ensures
        n == diag@.warnings,
{
    diag.warnings
}

/// Setting a level and then reading it gives that level back, and the
/// warning count is untouched by the switch.
pub proof fn law_verbosity_reads_back(s: DiagnosticsState, level: Verbosity)
    ensures
        s.with_verbosity(level).verbosity == level,
        s.with_verbosity(level).warnings == s.warnings,
{
}

/// A level stored as its byte reads back as that level.
pub proof fn law_level_byte_round_trip(level: Verbosity)
    ensures
        level_from_byte(level.spec_level()) == level,
{
}

/// Counting a warning never changes the level.
pub proof fn law_counting_keeps_verbosity(s: DiagnosticsState)
    ensures
        s.with_warning_counted().verbosity == s.verbosity,
{
}

/// The switches nest: trace output implies informational output, which
/// implies printed warnings; only `Quiet` silences warnings.
pub proof fn law_levels_nest(s: DiagnosticsState)
    ensures
        s.shows_trace() ==> s.shows_info(),
        s.shows_info() ==> s.shows_warnings(),
        !s.shows_warnings() <==> s.verbosity == Verbosity::Quiet,
        s.shows_trace() <==> s.verbosity == Verbosity::Trace,
        s.shows_info() <==> (s.verbosity == Verbosity::Verbose || s.verbosity == Verbosity::Trace),
{
}

/// A fresh run shows warnings but neither informational nor trace output,
/// and has counted nothing.
pub proof fn law_initial_state()
    ensures
        DiagnosticsState::initial().shows_warnings(),
        !DiagnosticsState::initial().shows_info(),
        !DiagnosticsState::initial().shows_trace(),
        DiagnosticsState::initial().warnings == 0,
{
}

/// Starting from a count `c`, counting `n` more warnings (with no wrap,
/// `c + n <= usize::MAX`) yields `c + n`, at any level.
pub proof fn law_warnings_add_up(s: DiagnosticsState, n: nat)
    requires
        s.warnings + n <= usize::MAX,
    ensures
        s.with_warnings_counted(n).warnings == s.warnings + n,
        s.with_warnings_counted(n).verbosity == s.verbosity,
    decreases n,
{
    if n > 0 {
        law_warnings_add_up(s, (n - 1) as nat);
    }
}

} // verus!
