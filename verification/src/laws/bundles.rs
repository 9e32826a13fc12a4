//! Laws on the files of an encrypted dial: what each of them leads to.

use std::path::PathBuf;

use vstd::prelude::*;

use crate::connect::{Connecting, Preparing};
use crate::endpoint::endpoint_outcome;
use crate::error::BalanceError;
use crate::pki::{is_trust_anchor, pem_certificates};
use crate::system::{ipv6_literal, ipv6_text, nanoseconds};
use crate::text::decimal;
use crate::tls::{
    bundle_settings, check_bundle, no_trust_anchor, require_certificates, require_trust_anchor,
    AwaitedView, Preparation, Reading, TlsOptions,
};
use crate::transport::{endpoint_settings, tls_settings, TlsSettings};

verus! {

/// A bundle anchors trust: it decodes, and at least one of its certificates can anchor
/// trust.
pub open spec fn anchors_trust(pem: Seq<u8>) -> bool {
    pem_certificates(pem) matches Ok(certificates) && exists|i: int|
        0 <= i < certificates.len() && #[trigger] is_trust_anchor(certificates[i])
}

/// A bundle is sound exactly where it decodes and at least one of its certificates can
/// anchor trust. Otherwise the error names the bundle: it carries the decoder's reason
/// where the bundle does not decode, says that it is empty where it holds no certificate,
/// and tells how many certificates it holds where none of them can anchor trust.
pub proof fn a_bundle_is_sound_where_it_anchors_trust(
    path: &PathBuf,
    pem: &Vec<u8>,
    res: Result<(), BalanceError>,
)
    requires
        call_ensures(check_bundle, (path, pem), res),
    ensures
        res is Ok <==> (pem_certificates(pem@) matches Ok(certificates) && exists|i: int|
            0 <= i < certificates.len() && #[trigger] is_trust_anchor(certificates[i])),
        pem_certificates(pem@) matches Err(source) ==> res == Err::<(), BalanceError>(
            BalanceError::CaUnparsable { path: *path, source },
        ),
        pem_certificates(pem@) matches Ok(certificates) && certificates.len() == 0 ==> res == Err::<
            (),
            BalanceError,
        >(BalanceError::CaEmpty { path: *path }),
        res matches Err(error) ==> (error is CaUnparsable || error is CaEmpty
            || error is CaNoTrustAnchor),
        res matches Err(BalanceError::CaNoTrustAnchor { path: named, sections }) ==> named == *path
            && sections > 0 && (pem_certificates(pem@) matches Ok(certificates) && sections
            == certificates.len() && forall|i: int|
            0 <= i < certificates.len() ==> !#[trigger] is_trust_anchor(certificates[i])),
        res matches Err(BalanceError::CaEmpty { .. }) ==> (pem_certificates(pem@) matches Ok(
            certificates,
        ) && certificates.len() == 0),
        res matches Err(BalanceError::CaUnparsable { .. }) ==> pem_certificates(pem@) is Err,
{
    if let Ok(certificates) = pem_certificates(pem@) {
        lemma_no_trust_anchor(certificates);
    }
}

proof fn lemma_no_trust_anchor(certificates: Seq<Seq<u8>>)
    ensures
        no_trust_anchor(certificates) <==> !exists|i: int|
            0 <= i < certificates.len() && #[trigger] is_trust_anchor(certificates[i]),
        no_trust_anchor(certificates) <==> forall|i: int|
            0 <= i < certificates.len() ==> !#[trigger] is_trust_anchor(certificates[i]),
{
    if !no_trust_anchor(certificates) {
        let i = choose|i: int|
            0 <= i < certificates.len() && is_trust_anchor(#[trigger] certificates[i]);
        assert(is_trust_anchor(certificates[i]));
    }
}

/// What was decoded is handed on where it holds a certificate, and only there.
pub proof fn certificates_are_handed_on_where_there_are_any(
    path: &PathBuf,
    decoded: Result<Vec<Vec<u8>>, rustls_pki_types::pem::Error>,
    res: Result<Vec<Vec<u8>>, BalanceError>,
)
    requires
        call_ensures(require_certificates, (path, decoded), res),
    ensures
        res is Ok <==> (decoded matches Ok(certificates) && certificates@.len() > 0),
        res matches Ok(certificates) ==> decoded == Ok::<
            Vec<Vec<u8>>,
            rustls_pki_types::pem::Error,
        >(certificates),
        res matches Err(BalanceError::CaUnparsable { path: named, source }) ==> named == *path
            && decoded == Err::<Vec<Vec<u8>>, rustls_pki_types::pem::Error>(source),
        decoded is Err <==> (res matches Err(BalanceError::CaUnparsable { .. })),
        (decoded matches Ok(certificates) && certificates@.len() == 0) <==> (res matches Err(
            BalanceError::CaEmpty { path: named },
        ) && named == *path),
{
}

/// One certificate that can anchor trust is enough, and none is not.
pub proof fn one_trust_anchor_is_enough(
    path: &PathBuf,
    sections: usize,
    accepted: usize,
    res: Result<(), BalanceError>,
)
    requires
        call_ensures(require_trust_anchor, (path, sections, accepted), res),
    ensures
        res is Ok <==> accepted > 0,
        res matches Err(error) ==> error == (BalanceError::CaNoTrustAnchor {
            path: *path,
            sections,
        }),
{
}

/// `settings` are those of a configuration that trusts `pem` and nothing beside it,
/// verifies the peer against `name`, presents no certificate, and gives the handshake 2
/// seconds.
pub open spec fn trusts_alone(settings: TlsSettings, name: Seq<char>, pem: Seq<u8>) -> bool {
    &&& settings.domain == Some(name)
    &&& settings.ca_certificates.len() == 1
    &&& settings.ca_certificates[0] == pem
    &&& settings.identity is None
    &&& settings.timeout matches Some(bound) && nanoseconds(bound) == 2_000_000_000
    &&& !settings.other_roots
}

/// `settings` with this certificate and its key to present, and nothing else changed.
pub open spec fn presenting(
    settings: TlsSettings,
    certificate: Seq<u8>,
    key: Seq<u8>,
) -> TlsSettings {
    TlsSettings {
        domain: settings.domain,
        ca_certificates: settings.ca_certificates,
        identity: Some((certificate, key)),
        timeout: settings.timeout,
        other_roots: settings.other_roots,
    }
}

/// A preparation starts with the bundle, for the options and the host that it is given.
pub proof fn a_preparation_starts_with_the_bundle<'a>(
    options: &'a TlsOptions,
    host: &'a str,
    reading: Reading<'a>,
)
    requires
        call_ensures(TlsOptions::prepare, (options, host), reading),
    ensures
        reading@.options == options@,
        reading@.host == host@,
        reading@.awaited is Bundle,
{
}

/// The file that is asked for is the one at the configured path: the bundle, then the
/// client certificate, then its key.
pub proof fn each_file_is_read_at_its_path<'a>(
    reading: Reading<'a>,
    path: &PathBuf,
    preparing: Preparing<'a>,
    dialled: &PathBuf,
)
    requires
        call_ensures(Reading::path, (&reading,), path),
        call_ensures(Preparing::path, (&preparing,), dialled),
    ensures
        reading@.awaited is Bundle ==> *path == reading@.options.ca_certificate,
        reading@.awaited is Certificate ==> *path == reading@.options.identity->0.certificate,
        reading@.awaited is Key ==> *path == reading@.options.identity->0.key,
        preparing@.reading.awaited is Bundle ==> *dialled
            == preparing@.reading.options.ca_certificate,
        preparing@.reading.awaited is Certificate ==> *dialled
            == preparing@.reading.options.identity->0.certificate,
        preparing@.reading.awaited is Key ==> *dialled
            == preparing@.reading.options.identity->0.key,
{
}

/// What a preparation does with its bundle. It goes on exactly where the bundle was read
/// and anchors trust. Then the configuration trusts the bundle alone, and is ready where
/// no client certificate is configured; where one is, that is asked for next.
pub proof fn a_preparation_goes_on_with_a_sound_bundle<'a>(
    reading: Reading<'a>,
    contents: Result<Vec<u8>, std::io::Error>,
    name: Seq<char>,
    res: Result<Preparation<'a>, BalanceError>,
)
    requires
        call_ensures(Reading::read, (reading, contents), res),
        reading@.awaited is Bundle,
        name == match reading@.options.domain_name {
            Some(domain) => domain@,
            None => reading@.host,
        },
    ensures
        contents matches Err(source) ==> res == Err::<Preparation<'a>, BalanceError>(
            BalanceError::CaUnreadable { path: reading@.options.ca_certificate, source },
        ),
        contents matches Ok(pem) ==> (res is Ok <==> anchors_trust(pem@)),
        contents is Ok && res is Err ==> refusal_of(
            reading@.options.ca_certificate,
            contents->Ok_0@,
            res->Err_0,
        ),
        contents is Ok && res is Ok && reading@.options.identity is None ==> (
        res matches Ok(Preparation::Ready(config)) && trusts_alone(
            tls_settings(config),
            name,
            contents->Ok_0@,
        )),
        contents is Ok && res is Ok && reading@.options.identity is Some ==> (
        res matches Ok(Preparation::Read(next)) && next@.options == reading@.options && next@.host
            == reading@.host && (next@.awaited matches AwaitedView::Certificate(settings)
            && trusts_alone(settings, name, contents->Ok_0@))),
{
    if let Ok(pem) = contents {
        if let Ok(certificates) = pem_certificates(pem@) {
            lemma_no_trust_anchor(certificates);
        }
    }
}

/// `error` is why the bundle `pem` from `path` is refused.
pub open spec fn refusal_of(path: PathBuf, pem: Seq<u8>, error: BalanceError) -> bool {
    match pem_certificates(pem) {
        Err(source) => error == (BalanceError::CaUnparsable { path, source }),
        Ok(certificates) => {
            &&& forall|i: int|
                0 <= i < certificates.len() ==> !#[trigger] is_trust_anchor(certificates[i])
            &&& certificates.len() == 0 ==> error == (BalanceError::CaEmpty { path })
            &&& certificates.len() > 0 ==> (error matches BalanceError::CaNoTrustAnchor {
                path: named,
                sections,
            } && named == path && sections == certificates.len())
        },
    }
}

/// What a preparation does with the client certificate and with its key: one that cannot
/// be read is an error that names it; the key is asked for after the certificate; and the
/// configuration that comes of both is the one before them, with both to present.
pub proof fn a_preparation_goes_on_with_a_client_certificate<'a>(
    reading: Reading<'a>,
    contents: Result<Vec<u8>, std::io::Error>,
    res: Result<Preparation<'a>, BalanceError>,
)
    requires
        call_ensures(Reading::read, (reading, contents), res),
        !(reading@.awaited is Bundle),
    ensures
        reading@.awaited is Certificate && contents is Err ==> res == Err::<
            Preparation<'a>,
            BalanceError,
        >(
            BalanceError::ClientCertificateUnreadable {
                path: reading@.options.identity->0.certificate,
                source: contents->Err_0,
            },
        ),
        reading@.awaited is Key && contents is Err ==> res == Err::<Preparation<'a>, BalanceError>(
            BalanceError::ClientKeyUnreadable {
                path: reading@.options.identity->0.key,
                source: contents->Err_0,
            },
        ),
        reading@.awaited is Certificate && contents is Ok ==> (
        res matches Ok(Preparation::Read(next)) && next@.options == reading@.options && next@.host
            == reading@.host && next@.awaited == AwaitedView::Key(
            reading@.awaited->Certificate_0,
            contents->Ok_0@,
        )),
        reading@.awaited is Key && contents is Ok ==> (
        res matches Ok(Preparation::Ready(config)) && tls_settings(config) == presenting(
            reading@.awaited->Key_0,
            reading@.awaited->Key_1,
            contents->Ok_0@,
        )),
{
}

/// `res` is a dial to what `preparing` dials, with a configuration of these settings; or
/// the reason why no endpoint can be built for its name with them.
pub open spec fn dials_with(
    preparing: Preparing,
    settings: TlsSettings,
    res: Result<Connecting, BalanceError>,
) -> bool {
    let authority = match ipv6_literal(preparing@.reading.host) {
        Some(ip) => "["@ + ipv6_text(ip) + "]:"@ + decimal(preparing@.port as nat),
        None => preparing@.reading.host + ":"@ + decimal(preparing@.port as nat),
    };
    match res {
        Ok(Connecting::Read(_)) => false,
        Ok(Connecting::Resolve(boot)) => {
            &&& boot@.target.host@ == preparing@.reading.host
            &&& boot@.target.port == preparing@.port
            &&& boot@.target.request_timeout == preparing@.request_timeout
            &&& boot@.target.tls matches Some(config) && tls_settings(config) == settings
            &&& endpoint_settings(boot@.seed).tls == Some(settings)
            &&& endpoint_outcome(
                authority,
                Some(settings),
                preparing@.request_timeout,
                Ok(boot@.seed),
            )
        },
        Err(error) => {
            &&& error is InvalidHost || error is Tls
            &&& endpoint_outcome(
                authority,
                Some(settings),
                preparing@.request_timeout,
                Err(error),
            )
        },
    }
}

/// What an encrypted dial does with its bundle. One that cannot be read, or does not
/// anchor trust, is refused. With any other the dial is set up, where no client
/// certificate is configured, with a configuration that trusts the bundle alone; where one
/// is, that is asked for next. The host, the port and the bound on a request stay what
/// they are.
pub proof fn an_encrypted_dial_goes_on_with_a_sound_bundle<'a>(
    preparing: Preparing<'a>,
    contents: Result<Vec<u8>, std::io::Error>,
    name: Seq<char>,
    res: Result<Connecting<'a>, BalanceError>,
)
    requires
        call_ensures(Preparing::read, (preparing, contents), res),
        preparing@.reading.awaited is Bundle,
        name == match preparing@.reading.options.domain_name {
            Some(domain) => domain@,
            None => preparing@.reading.host,
        },
    ensures
        contents matches Err(source) ==> res == Err::<Connecting<'a>, BalanceError>(
            BalanceError::CaUnreadable { path: preparing@.reading.options.ca_certificate, source },
        ),
        contents is Ok && !anchors_trust(contents->Ok_0@) ==> res is Err && refusal_of(
            preparing@.reading.options.ca_certificate,
            contents->Ok_0@,
            res->Err_0,
        ),
        contents is Ok && anchors_trust(contents->Ok_0@) && preparing@.reading.options.identity is None
            ==> exists|settings: TlsSettings| #[trigger]
            trusts_alone(settings, name, contents->Ok_0@) && dials_with(preparing, settings, res),
        contents is Ok && anchors_trust(contents->Ok_0@) && preparing@.reading.options.identity is Some
            ==> (res matches Ok(Connecting::Read(next)) && next@.port == preparing@.port
            && next@.request_timeout == preparing@.request_timeout && next@.reading.options
            == preparing@.reading.options && next@.reading.host == preparing@.reading.host && (
        next@.reading.awaited matches AwaitedView::Certificate(settings) && trusts_alone(
            settings,
            name,
            contents->Ok_0@,
        ))),
{
    if let Ok(pem) = contents {
        if let Ok(certificates) = pem_certificates(pem@) {
            lemma_no_trust_anchor(certificates);
        }
        if anchors_trust(pem@) && preparing@.reading.options.identity is None {
            let settings = bundle_settings(
                preparing@.reading.options,
                preparing@.reading.host,
                pem@,
            );
            assert(dials_with(preparing, settings, res));
            assert(trusts_alone(settings, name, pem@));
        }
    }
}

/// What an encrypted dial does with the client certificate and with its key: one that
/// cannot be read is an error that names it, and never a dial without it; the key is asked
/// for after the certificate; and the dial is set up with the configuration before them,
/// with both to present.
pub proof fn an_encrypted_dial_goes_on_with_a_client_certificate<'a>(
    preparing: Preparing<'a>,
    contents: Result<Vec<u8>, std::io::Error>,
    res: Result<Connecting<'a>, BalanceError>,
)
    requires
        call_ensures(Preparing::read, (preparing, contents), res),
        !(preparing@.reading.awaited is Bundle),
    ensures
        preparing@.reading.awaited is Certificate && contents is Err ==> res == Err::<
            Connecting<'a>,
            BalanceError,
        >(
            BalanceError::ClientCertificateUnreadable {
                path: preparing@.reading.options.identity->0.certificate,
                source: contents->Err_0,
            },
        ),
        preparing@.reading.awaited is Key && contents is Err ==> res == Err::<
            Connecting<'a>,
            BalanceError,
        >(
            BalanceError::ClientKeyUnreadable {
                path: preparing@.reading.options.identity->0.key,
                source: contents->Err_0,
            },
        ),
        preparing@.reading.awaited is Certificate && contents is Ok ==> (
        res matches Ok(Connecting::Read(next)) && next@.port == preparing@.port
            && next@.request_timeout == preparing@.request_timeout && next@.reading.options
            == preparing@.reading.options && next@.reading.host == preparing@.reading.host
            && next@.reading.awaited == AwaitedView::Key(
            preparing@.reading.awaited->Certificate_0,
            contents->Ok_0@,
        )),
        preparing@.reading.awaited is Key && contents is Ok ==> dials_with(
            preparing,
            presenting(
                preparing@.reading.awaited->Key_0,
                preparing@.reading.awaited->Key_1,
                contents->Ok_0@,
            ),
            res,
        ),
{
}

/// New options trust the bundle at the path that they are given, and say nothing else.
pub proof fn new_options_say_where_the_bundle_is<T: Into<PathBuf>>(path: T, options: TlsOptions)
    requires
        call_ensures(TlsOptions::new, (path,), options),
    ensures
        call_ensures(Into::<PathBuf>::into, (path,), options@.ca_certificate),
        options@.domain_name is None,
        options@.identity is None,
{
}

/// A copy of options says what they say.
pub proof fn a_copy_of_options_says_the_same(options: TlsOptions, copy: TlsOptions)
    requires
        call_ensures(TlsOptions::clone, (&options,), copy),
    ensures
        copy@.ca_certificate == options@.ca_certificate,
        copy@.domain_name == options@.domain_name,
        copy@.identity == options@.identity,
{
}

/// A name to verify against is recorded, and leaves the bundle and the certificate as
/// they are.
pub proof fn a_domain_name_leaves_the_rest_alone<T: Into<String>>(
    options: TlsOptions,
    name: T,
    res: TlsOptions,
)
    requires
        call_ensures(TlsOptions::domain_name, (options, name), res),
    ensures
        res@.domain_name matches Some(text) && call_ensures(Into::<String>::into, (name,), text),
        res@.ca_certificate == options@.ca_certificate,
        res@.identity == options@.identity,
{
}

/// A certificate and its key are recorded, and leave the bundle and the name as they are.
pub proof fn an_identity_leaves_the_rest_alone<C: Into<PathBuf>, K: Into<PathBuf>>(
    options: TlsOptions,
    certificate: C,
    key: K,
    res: TlsOptions,
)
    requires
        call_ensures(TlsOptions::identity, (options, certificate, key), res),
    ensures
        res@.identity matches Some(paths) && call_ensures(
            Into::<PathBuf>::into,
            (certificate,),
            paths.certificate,
        ) && call_ensures(Into::<PathBuf>::into, (key,), paths.key),
        res@.ca_certificate == options@.ca_certificate,
        res@.domain_name == options@.domain_name,
{
}

} // verus!
