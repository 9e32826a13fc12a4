//! The names and numbers that operators and callers rely on.

use std::time::Duration;

use yadgar_dial::{
    default_request_timeout, reresolve_interval, resolve_timeout, CONNECT_TIMEOUT_SECS,
    UPSTREAM_LABEL, UPSTREAM_NEVER_RESOLVED,
};

/// Against literals: a renamed constant would rename both sides of any other
/// comparison, while a dashboard goes on asking for the old name.
#[test]
fn the_names_a_dashboard_queries_are_pinned_to_their_spelling() {
    assert_eq!(
        UPSTREAM_NEVER_RESOLVED,
        "yadgar_dial_upstream_never_resolved"
    );
    assert_eq!(UPSTREAM_LABEL, "upstream");
}

#[test]
fn the_intervals_and_the_bounds_have_their_values() {
    assert_eq!(reresolve_interval(), Duration::from_secs(5));
    assert_eq!(default_request_timeout(), Duration::from_secs(30));
    assert_eq!(resolve_timeout(), Duration::from_secs(5));
    assert_eq!(CONNECT_TIMEOUT_SECS, 2);
}
