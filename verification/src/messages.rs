//! The fixed parts of the messages that errors carry.

use vstd::prelude::*;

verus! {

pub const DNS_TIMED_OUT_HEAD: &'static str = "resolving ";

pub const DNS_TIMED_OUT_MIDDLE: &'static str = " did not finish within ";

pub const DNS_TIMED_OUT_TAIL: &'static str =
    ". This is NOT a name that does not exist — that answers, and answers quickly. \
    It is a resolver that stopped answering at all, and the caller is released \
    rather than left waiting with no end. The lookup itself runs on the blocking \
    pool and cannot be cancelled: that thread stays parked until the resolver \
    replies.";

pub const INVALID_HOST: &'static str =
    " cannot be dialled at all: it does not form a URI authority. This is NOT an \
    upstream that is absent — no resolution will ever fix it — so it is reported \
    before a channel exists rather than deferred to a lazy dial that could never \
    succeed.";

pub const DNS: &'static str = "could not resolve ";

pub const CA_UNREADABLE_HEAD: &'static str =
    "TLS was requested, so a CA certificate bundle that cannot be read is an error \
    rather than a reason to connect in cleartext. The bundle at ";

pub const CA_UNREADABLE_TAIL: &'static str = " could not be read";

pub const CA_UNPARSABLE: &'static str = "could not decode the CA certificate bundle at ";

pub const CA_EMPTY_HEAD: &'static str = "the CA certificate bundle at ";

pub const CA_EMPTY_TAIL: &'static str =
    " decoded without error but contains no certificate. That is not the same as a \
    missing file: the PEM reader returns an empty list for input with no \
    certificate section, so an empty or truncated bundle would otherwise produce \
    a trust store with no roots — which trusts nobody and fails much later, at \
    the handshake.";

pub const CA_NO_TRUST_ANCHOR_HEAD: &'static str = "the CA certificate bundle at ";

pub const CA_NO_TRUST_ANCHOR_MIDDLE: &'static str = " holds ";

pub const CA_NO_TRUST_ANCHOR_TAIL: &'static str =
    " PEM certificate section(s) and NONE of them is a usable trust anchor. That \
    is not the same as an empty bundle: the sections are present and they decode \
    as PEM, so counting them says the file is fine. tonic builds its root store \
    with `add_parsable_certificates`, which reports how many it accepted and how \
    many it threw away, and discards that report — so a bundle like this one \
    produces a trust store with no roots and no error, and fails much later, at \
    the handshake.";

pub const CLIENT_CERTIFICATE_UNREADABLE_HEAD: &'static str =
    "a client certificate was configured, so one that cannot be read is an error \
    rather than a reason to connect without presenting one. The certificate at ";

pub const CLIENT_CERTIFICATE_UNREADABLE_TAIL: &'static str = " could not be read";

pub const CLIENT_KEY_UNREADABLE_HEAD: &'static str =
    "a client certificate without its key proves nothing, so a key that cannot be \
    read is an error rather than a reason to connect without presenting one. The \
    key at ";

pub const CLIENT_KEY_UNREADABLE_TAIL: &'static str = " could not be read";

pub const TLS: &'static str = "TLS could not be configured";

} // verus!
