//! What this crate takes on trust from the standard library.

use std::path::PathBuf;
use std::time::Duration;

use vstd::prelude::*;

verus! {

/// A path to a file. It is carried from the caller to whatever reads the file.
#[verifier::external_type_specification]
#[verifier::external_body]
pub struct ExPathBuf(std::path::PathBuf);

/// Why the operating system refused something. It is carried into an error.
#[verifier::external_type_specification]
#[verifier::external_body]
pub struct ExIoError(std::io::Error);

/// `PathBuf::clone`: the copy is the same path.
pub assume_specification[ <PathBuf as Clone>::clone ](path: &PathBuf) -> (res: PathBuf)
    ensures
        res == *path,
;

/// The text of a path, as `Path::display` writes it.
pub uninterp spec fn path_text(path: PathBuf) -> Seq<char>;

/// `Path::display`, turned into a string. The text depends on the path alone.
#[verifier::external_body]
pub(crate) fn display_path(path: &PathBuf) -> (res: String)
    ensures
        res@ == path_text(*path),
{
    path.display().to_string()
}

/// The span of `secs` whole seconds.
pub uninterp spec fn seconds(secs: u64) -> Duration;

/// The length of a span of time in nanoseconds, as `Duration::as_nanos` counts them.
pub uninterp spec fn nanoseconds(duration: Duration) -> nat;

/// `duration` is `secs` seconds long.
pub open spec fn lasts(duration: Duration, secs: u64) -> bool {
    nanoseconds(duration) == secs * 1_000_000_000
}

/// `Duration::from_secs`: the span is fixed by the number of seconds, and is that
/// long.
pub assume_specification[ Duration::from_secs ](secs: u64) -> (res: Duration)
    ensures
        res == seconds(secs),
        nanoseconds(res) == secs * 1_000_000_000,
;

/// The text of a span of time, as its `Debug` form writes it.
pub uninterp spec fn duration_text(duration: Duration) -> Seq<char>;

/// The `Debug` form of `Duration`. The text depends on the span alone.
#[verifier::external_body]
pub(crate) fn debug_duration(duration: &Duration) -> (res: String)
    ensures
        res@ == duration_text(*duration),
{
    format!("{:?}", duration)
}

/// The IPv6 address that `text` is a literal for, if it is one.
pub uninterp spec fn ipv6_literal(text: Seq<char>) -> Option<u128>;

/// `Ipv6Addr::from_str`, by way of `str::parse`: the address as a number, or
/// `None` where the text is no IPv6 literal. The answer depends on the text alone.
#[verifier::external_body]
pub(crate) fn parse_ipv6(text: &str) -> (res: Option<u128>)
    ensures
        res == ipv6_literal(text@),
{
    text.parse::<core::net::Ipv6Addr>().ok().map(u128::from)
}

/// The canonical text of an IPv6 address.
pub uninterp spec fn ipv6_text(ip: u128) -> Seq<char>;

/// The `Display` form of `Ipv6Addr`. The text depends on the address alone.
#[verifier::external_body]
pub(crate) fn display_ipv6(ip: u128) -> (res: String)
    ensures
        res@ == ipv6_text(ip),
{
    core::net::Ipv6Addr::from(ip).to_string()
}

} // verus!
