use jmap_dumper::diag::{
    count_warning, is_trace, is_verbose, set_verbosity, verbosity, warning_count, warnings_enabled,
    Diagnostics,
};
use jmap_dumper::verbosity::Verbosity;

#[test]
fn fresh_state_is_normal_without_warnings() {
    let d = Diagnostics::new();
    assert_eq!(verbosity(&d), Verbosity::Normal);
    assert_eq!(warning_count(&d), 0);
    assert!(warnings_enabled(&d));
    assert!(!is_verbose(&d));
    assert!(!is_trace(&d));
}

#[test]
fn set_verbosity_reads_back() {
    let mut d = Diagnostics::new();
    for level in [Verbosity::Quiet, Verbosity::Normal, Verbosity::Verbose, Verbosity::Trace] {
        set_verbosity(&mut d, level);
        assert_eq!(verbosity(&d), level);
    }
}

#[test]
fn quiet_disables_warnings_only() {
    let mut d = Diagnostics::new();
    set_verbosity(&mut d, Verbosity::Quiet);
    assert!(!warnings_enabled(&d));
    assert!(!is_verbose(&d));
    assert!(!is_trace(&d));
}

#[test]
fn verbose_shows_info_but_not_trace() {
    let mut d = Diagnostics::new();
    set_verbosity(&mut d, Verbosity::Verbose);
    assert!(warnings_enabled(&d));
    assert!(is_verbose(&d));
    assert!(!is_trace(&d));
}

#[test]
fn trace_shows_everything() {
    let mut d = Diagnostics::new();
    set_verbosity(&mut d, Verbosity::Trace);
    assert!(warnings_enabled(&d));
    assert!(is_verbose(&d));
    assert!(is_trace(&d));
}

#[test]
fn warnings_are_counted_at_every_level() {
    let mut d = Diagnostics::new();
    count_warning(&mut d);
    set_verbosity(&mut d, Verbosity::Quiet);
    count_warning(&mut d);
    count_warning(&mut d);
    assert_eq!(warning_count(&d), 3);
    assert_eq!(verbosity(&d), Verbosity::Quiet);
}

#[test]
fn switching_level_keeps_warning_count() {
    let mut d = Diagnostics::default();
    count_warning(&mut d);
    set_verbosity(&mut d, Verbosity::Trace);
    assert_eq!(warning_count(&d), 1);
}

#[test]
fn verbosity_order_and_default() {
    assert!(Verbosity::Quiet < Verbosity::Normal);
    assert!(Verbosity::Normal < Verbosity::Verbose);
    assert!(Verbosity::Verbose < Verbosity::Trace);
    assert!(Verbosity::Trace >= Verbosity::Verbose);
    assert_eq!(Verbosity::default(), Verbosity::Normal);
    assert_eq!(Verbosity::Quiet.max(Verbosity::Trace), Verbosity::Trace);
    assert_eq!(Verbosity::Trace.level(), 3);
    assert_eq!(Verbosity::Quiet.level(), 0);
}
