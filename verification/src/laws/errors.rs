//! Laws on what errors say.

use vstd::prelude::*;

use crate::error::BalanceError;
use crate::laws::texts::{a_numeral_stands_for_its_number, number_of};
use crate::messages;
use crate::system::{duration_text, path_text};
use crate::text::decimal;

verus! {

/// Two errors that differ in their cause at most.
pub open spec fn alike_but_for_the_cause(a: BalanceError, b: BalanceError) -> bool {
    match (a, b) {
        (BalanceError::Dns { host: x, .. }, BalanceError::Dns { host: y, .. }) => x == y,
        (
            BalanceError::CaUnreadable { path: x, .. },
            BalanceError::CaUnreadable { path: y, .. },
        ) => x == y,
        (
            BalanceError::CaUnparsable { path: x, .. },
            BalanceError::CaUnparsable { path: y, .. },
        ) => x == y,
        (
            BalanceError::ClientCertificateUnreadable { path: x, .. },
            BalanceError::ClientCertificateUnreadable { path: y, .. },
        ) => x == y,
        (
            BalanceError::ClientKeyUnreadable { path: x, .. },
            BalanceError::ClientKeyUnreadable { path: y, .. },
        ) => x == y,
        (BalanceError::Tls { .. }, BalanceError::Tls { .. }) => true,
        _ => a == b,
    }
}

/// What an error says of itself does not depend on its cause, so whoever prints the
/// whole chain of causes prints each of them once.
pub proof fn a_message_leaves_its_cause_to_the_chain(a: BalanceError, b: BalanceError)
    requires
        alike_but_for_the_cause(a, b),
    ensures
        a.spec_message() == b.spec_message(),
{
}

/// `text` is `head`, then `subject`, then `tail`.
pub open spec fn names(
    text: Seq<char>,
    head: Seq<char>,
    subject: Seq<char>,
    tail: Seq<char>,
) -> bool {
    &&& text.len() == head.len() + subject.len() + tail.len()
    &&& text.take(head.len() as int) == head
    &&& text.skip(head.len() as int).take(subject.len() as int) == subject
    &&& text.skip((head.len() + subject.len()) as int) == tail
}

proof fn lemma_names(head: Seq<char>, subject: Seq<char>, tail: Seq<char>)
    ensures
        names(head + subject + tail, head, subject, tail),
        names(head + subject, head, subject, Seq::empty()),
        names(subject + tail, Seq::empty(), subject, tail),
{
    let text = head + subject + tail;
    assert(text.take(head.len() as int) =~= head);
    assert(text.skip(head.len() as int).take(subject.len() as int) =~= subject);
    assert(text.skip((head.len() + subject.len()) as int) =~= tail);
    let text = head + subject;
    assert(text.take(head.len() as int) =~= head);
    assert(text.skip(head.len() as int).take(subject.len() as int) =~= subject);
    assert(text.skip((head.len() + subject.len()) as int) =~= Seq::empty());
    let text = subject + tail;
    assert(text.take(0) =~= Seq::empty());
    assert(text.skip(0).take(subject.len() as int) =~= subject);
    assert(text.skip(subject.len() as int) =~= tail);
}

/// What an error says names its host or its file, whole and as it is, between fixed
/// words that tell the errors apart.
pub proof fn a_message_names_what_it_is_about(error: BalanceError, text: String)
    requires
        call_ensures(BalanceError::message, (&error,), text),
    ensures
        match error {
            BalanceError::DnsTimedOut { host, after } => names(
                text@,
                messages::DNS_TIMED_OUT_HEAD@,
                host@ + messages::DNS_TIMED_OUT_MIDDLE@ + duration_text(after),
                messages::DNS_TIMED_OUT_TAIL@,
            ),
            BalanceError::InvalidHost { host } => names(
                text@,
                Seq::empty(),
                host@,
                messages::INVALID_HOST@,
            ),
            BalanceError::Dns { host, .. } => names(text@, messages::DNS@, host@, Seq::empty()),
            BalanceError::CaUnreadable { path, .. } => names(
                text@,
                messages::CA_UNREADABLE_HEAD@,
                path_text(path),
                messages::CA_UNREADABLE_TAIL@,
            ),
            BalanceError::CaUnparsable { path, .. } => names(
                text@,
                messages::CA_UNPARSABLE@,
                path_text(path),
                Seq::empty(),
            ),
            BalanceError::CaEmpty { path } => names(
                text@,
                messages::CA_EMPTY_HEAD@,
                path_text(path),
                messages::CA_EMPTY_TAIL@,
            ),
            BalanceError::CaNoTrustAnchor { path, sections } => exists|count: Seq<char>|
                number_of(count) == sections && #[trigger] names(
                    text@,
                    messages::CA_NO_TRUST_ANCHOR_HEAD@,
                    path_text(path) + messages::CA_NO_TRUST_ANCHOR_MIDDLE@ + count,
                    messages::CA_NO_TRUST_ANCHOR_TAIL@,
                ),
            BalanceError::ClientCertificateUnreadable { path, .. } => names(
                text@,
                messages::CLIENT_CERTIFICATE_UNREADABLE_HEAD@,
                path_text(path),
                messages::CLIENT_CERTIFICATE_UNREADABLE_TAIL@,
            ),
            BalanceError::ClientKeyUnreadable { path, .. } => names(
                text@,
                messages::CLIENT_KEY_UNREADABLE_HEAD@,
                path_text(path),
                messages::CLIENT_KEY_UNREADABLE_TAIL@,
            ),
            BalanceError::Tls { .. } => text@ == messages::TLS@,
        },
{
    match error {
        BalanceError::DnsTimedOut { host, after } => {
            let subject = host@ + messages::DNS_TIMED_OUT_MIDDLE@ + duration_text(after);
            lemma_names(messages::DNS_TIMED_OUT_HEAD@, subject, messages::DNS_TIMED_OUT_TAIL@);
            assert(text@ =~= messages::DNS_TIMED_OUT_HEAD@ + subject
                + messages::DNS_TIMED_OUT_TAIL@);
        },
        BalanceError::InvalidHost { host } => {
            lemma_names(Seq::empty(), host@, messages::INVALID_HOST@);
        },
        BalanceError::Dns { host, .. } => {
            lemma_names(messages::DNS@, host@, Seq::empty());
        },
        BalanceError::CaUnreadable { path, .. } => {
            lemma_names(
                messages::CA_UNREADABLE_HEAD@,
                path_text(path),
                messages::CA_UNREADABLE_TAIL@,
            );
        },
        BalanceError::CaUnparsable { path, .. } => {
            lemma_names(messages::CA_UNPARSABLE@, path_text(path), Seq::empty());
        },
        BalanceError::CaEmpty { path } => {
            lemma_names(messages::CA_EMPTY_HEAD@, path_text(path), messages::CA_EMPTY_TAIL@);
        },
        BalanceError::CaNoTrustAnchor { path, sections } => {
            let count = decimal(sections as nat);
            a_numeral_stands_for_its_number(sections as nat);
            let subject = path_text(path) + messages::CA_NO_TRUST_ANCHOR_MIDDLE@ + count;
            lemma_names(
                messages::CA_NO_TRUST_ANCHOR_HEAD@,
                subject,
                messages::CA_NO_TRUST_ANCHOR_TAIL@,
            );
            assert(text@ =~= messages::CA_NO_TRUST_ANCHOR_HEAD@ + subject
                + messages::CA_NO_TRUST_ANCHOR_TAIL@);
        },
        BalanceError::ClientCertificateUnreadable { path, .. } => {
            lemma_names(
                messages::CLIENT_CERTIFICATE_UNREADABLE_HEAD@,
                path_text(path),
                messages::CLIENT_CERTIFICATE_UNREADABLE_TAIL@,
            );
        },
        BalanceError::ClientKeyUnreadable { path, .. } => {
            lemma_names(
                messages::CLIENT_KEY_UNREADABLE_HEAD@,
                path_text(path),
                messages::CLIENT_KEY_UNREADABLE_TAIL@,
            );
        },
        BalanceError::Tls { .. } => {},
    }
}

} // verus!
