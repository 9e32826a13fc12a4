//! Per-service TLS options, and their preparation into a TLS configuration.

use std::path::PathBuf;

use tonic::transport::ClientTlsConfig;
use vstd::prelude::*;

use crate::error::BalanceError;
use crate::pki::{
    bodies, count_trust_anchors, is_trust_anchor, pem_certificates, read_pem_certificates,
};
use crate::system::{lasts, seconds};
use crate::transport::{
    tls_settings, with_ca_certificate, with_domain_name, with_identity, TlsSettings,
};
use crate::CONNECT_TIMEOUT_SECS;

verus! {

/// Per-service TLS: a CA bundle on disk, and the name to verify against.
///
/// Paths and a name, never a resource of one issuer. The peer's certificate is
/// verified against the host that is dialled, not against whichever address the
/// balancer has picked; [`TlsOptions::domain_name`] overrides it where the
/// certificate names something else. [`TlsOptions::identity`] adds a certificate
/// for this side, and is off unless it is set.
#[derive(Debug)]
pub struct TlsOptions {
    ca_certificate: PathBuf,
    domain_name: Option<String>,
    identity: Option<ClientIdentity>,
}

/// The certificate a caller presents, and its key. One without the other is no
/// configuration, so the two live together.
#[derive(Debug)]
struct ClientIdentity {
    certificate: PathBuf,
    key: PathBuf,
}

/// Where a client certificate and its key are.
pub ghost struct IdentityPaths {
    /// The certificate.
    pub certificate: PathBuf,
    /// The key.
    pub key: PathBuf,
}

/// What a [`TlsOptions`] says.
pub ghost struct TlsOptionsView {
    /// The PEM bundle of the authorities that are trusted.
    pub ca_certificate: PathBuf,
    /// The name to verify against, where it is not the host.
    pub domain_name: Option<String>,
    /// The certificate to present, and its key.
    pub identity: Option<IdentityPaths>,
}

impl TlsOptionsView {
    /// The same options, with another name to verify against.
    pub open spec fn with_domain_name(self, domain_name: String) -> TlsOptionsView {
        TlsOptionsView { domain_name: Some(domain_name), ..self }
    }

    /// The same options, with another certificate to present.
    pub open spec fn with_identity(self, certificate: PathBuf, key: PathBuf) -> TlsOptionsView {
        TlsOptionsView { identity: Some(IdentityPaths { certificate, key }), ..self }
    }

    /// The name that the certificate of `host` is verified against.
    pub open spec fn verified_name(self, host: Seq<char>) -> Seq<char> {
        match self.domain_name {
            Some(name) => name@,
            None => host,
        }
    }
}

impl View for TlsOptions {
    type V = TlsOptionsView;

    closed spec fn view(&self) -> TlsOptionsView {
        TlsOptionsView {
            ca_certificate: self.ca_certificate,
            domain_name: self.domain_name,
            identity: match self.identity {
                Some(identity) => Some(
                    IdentityPaths { certificate: identity.certificate, key: identity.key },
                ),
                None => None,
            },
        }
    }
}

impl Clone for TlsOptions {
    fn clone(&self) -> (res: TlsOptions)
        ensures
            res@ == self@,
    {
        TlsOptions {
            ca_certificate: self.ca_certificate.clone(),
            domain_name: match &self.domain_name {
                Some(name) => Some(name.clone()),
                None => None,
            },
            identity: match &self.identity {
                Some(identity) => Some(
                    ClientIdentity {
                        certificate: identity.certificate.clone(),
                        key: identity.key.clone(),
                    },
                ),
                None => None,
            },
        }
    }
}

impl TlsOptions {
    /// Verify the peer against the certificate authorities in the PEM bundle at
    /// `ca_certificate`. The file is read when a dial starts, not here.
    pub fn new(ca_certificate: impl Into<PathBuf>) -> (res: TlsOptions)
        ensures
            call_ensures(Into::<PathBuf>::into, (ca_certificate,), res@.ca_certificate),
            res@.domain_name is None,
            res@.identity is None,
    {
        TlsOptions { ca_certificate: ca_certificate.into(), domain_name: None, identity: None }
    }

    /// Verify the peer's certificate against `domain_name` instead of against the
    /// host that is dialled.
    pub fn domain_name(self, domain_name: impl Into<String>) -> (res: TlsOptions)
        ensures
            res@ == self@.with_domain_name(res@.domain_name->0),
            call_ensures(Into::<String>::into, (domain_name,), res@.domain_name->0),
    {
        TlsOptions {
            ca_certificate: self.ca_certificate,
            domain_name: Some(domain_name.into()),
            identity: self.identity,
        }
    }

    /// Present `certificate`, proved by `key`, so that the peer can authenticate
    /// this caller. Both files are read when a dial starts.
    pub fn identity(self, certificate: impl Into<PathBuf>, key: impl Into<PathBuf>) -> (res:
        TlsOptions)
        ensures
            res@ == self@.with_identity(res@.identity->0.certificate, res@.identity->0.key),
            call_ensures(Into::<PathBuf>::into, (certificate,), res@.identity->0.certificate),
            call_ensures(Into::<PathBuf>::into, (key,), res@.identity->0.key),
    {
        TlsOptions {
            ca_certificate: self.ca_certificate,
            domain_name: self.domain_name,
            identity: Some(ClientIdentity { certificate: certificate.into(), key: key.into() }),
        }
    }
}

/// None of `certificates` can anchor trust.
pub open spec fn no_trust_anchor(certificates: Seq<Seq<u8>>) -> bool {
    forall|i: int| 0 <= i < certificates.len() ==> !is_trust_anchor(#[trigger] certificates[i])
}

/// What is wrong with a CA bundle that was read from `path`, if anything is.
pub open spec fn bundle_error(path: PathBuf, pem: Seq<u8>) -> Option<BalanceError> {
    match pem_certificates(pem) {
        Err(source) => Some(BalanceError::CaUnparsable { path, source }),
        Ok(certificates) => if certificates.len() == 0 {
            Some(BalanceError::CaEmpty { path })
        } else if no_trust_anchor(certificates) {
            Some(BalanceError::CaNoTrustAnchor { path, sections: certificates.len() as usize })
        } else {
            None
        },
    }
}

/// The certificates of a bundle, from what decoding it gave: an error if it is not
/// PEM, and an error if it holds none.
///
/// The PEM reader yields nothing, rather than an error, for input that has no
/// certificate section, so a bundle that decodes can still be empty.
pub fn require_certificates(
    path: &PathBuf,
    decoded: Result<Vec<Vec<u8>>, rustls_pki_types::pem::Error>,
) -> (res: Result<Vec<Vec<u8>>, BalanceError>)
    ensures
        match decoded {
            Err(source) => res == Err::<Vec<Vec<u8>>, BalanceError>(
                BalanceError::CaUnparsable { path: *path, source },
            ),
            Ok(certificates) => if certificates.len() == 0 {
                res == Err::<Vec<Vec<u8>>, BalanceError>(BalanceError::CaEmpty { path: *path })
            } else {
                res == Ok::<Vec<Vec<u8>>, BalanceError>(certificates)
            },
        },
{
    match decoded {
        Err(source) => Err(BalanceError::CaUnparsable { path: path.clone(), source }),
        Ok(certificates) => if certificates.len() == 0 {
            Err(BalanceError::CaEmpty { path: path.clone() })
        } else {
            Ok(certificates)
        },
    }
}

/// An error if none of the `sections` certificates of a bundle was `accepted` as a
/// trust anchor.
///
/// The sections of a bundle can decode as PEM and be no certificate at all, and a
/// trust store without roots trusts nobody.
pub fn require_trust_anchor(path: &PathBuf, sections: usize, accepted: usize) -> (res: Result<
    (),
    BalanceError,
>)
    ensures
        res == (if accepted == 0 {
            Err::<(), BalanceError>(BalanceError::CaNoTrustAnchor { path: *path, sections })
        } else {
            Ok::<(), BalanceError>(())
        }),
{
    if accepted == 0 {
        Err(BalanceError::CaNoTrustAnchor { path: path.clone(), sections })
    } else {
        Ok(())
    }
}

proof fn lemma_accepted(certificates: Seq<Seq<u8>>)
    ensures
        certificates.filter(|der: Seq<u8>| is_trust_anchor(der)).len() == 0 <==> no_trust_anchor(
            certificates,
        ),
    decreases certificates.len(),
{
    reveal(Seq::filter);
    if certificates.len() > 0 {
        let rest = certificates.drop_last();
        lemma_accepted(rest);
        assert(no_trust_anchor(certificates) ==> !is_trust_anchor(
            certificates[certificates.len() - 1],
        ));
        if no_trust_anchor(certificates) {
            assert forall|i: int| 0 <= i < rest.len() implies !is_trust_anchor(
                #[trigger] rest[i],
            ) by {
                assert(rest[i] == certificates[i]);
            }
        }
        if no_trust_anchor(rest) && !is_trust_anchor(certificates.last()) {
            assert forall|i: int| 0 <= i < certificates.len() implies !is_trust_anchor(
                #[trigger] certificates[i],
            ) by {
                if i < rest.len() {
                    assert(rest[i] == certificates[i]);
                }
            }
        }
    }
}

/// Checks the CA bundle that was read from `path`: that it is PEM, that it holds a
/// certificate, and that one of its certificates can anchor trust.
pub fn check_bundle(path: &PathBuf, pem: &Vec<u8>) -> (res: Result<(), BalanceError>)
    ensures
        match res {
            Ok(_) => bundle_error(*path, pem@) is None,
            Err(error) => bundle_error(*path, pem@) == Some(error),
        },
        pem_certificates(pem@) matches Ok(certificates) ==> certificates.len() <= usize::MAX,
{
    match require_certificates(path, read_pem_certificates(pem)) {
        Err(error) => Err(error),
        Ok(certificates) => {
            let (accepted, _rejected) = count_trust_anchors(&certificates);
            proof {
                lemma_accepted(bodies(certificates@));
            }
            require_trust_anchor(path, certificates.len(), accepted)
        },
    }
}

/// What reading a file gave, as bytes or as an error.
pub open spec fn contents_of(read: Result<Vec<u8>, std::io::Error>) -> Result<
    Seq<u8>,
    std::io::Error,
> {
    match read {
        Ok(bytes) => Ok(bytes@),
        Err(error) => Err(error),
    }
}

/// The configuration that a sound bundle gives, before a client certificate.
pub open spec fn bundle_settings(
    options: TlsOptionsView,
    host: Seq<char>,
    pem: Seq<u8>,
) -> TlsSettings {
    TlsSettings {
        domain: Some(options.verified_name(host)),
        ca_certificates: seq![pem],
        identity: None,
        timeout: Some(seconds(CONNECT_TIMEOUT_SECS)),
        other_roots: false,
    }
}

/// The handshake is bounded like the connect before it.
pub open spec fn is_bounded(settings: TlsSettings) -> bool {
    settings.timeout matches Some(bound) && lasts(bound, CONNECT_TIMEOUT_SECS)
}

/// The handshake of a preparation is bounded, as soon as there is a bundle.
pub open spec fn bounds_its_handshake(preparation: PreparationView) -> bool {
    match preparation {
        PreparationView::Read(reading) => match reading.awaited {
            AwaitedView::Bundle => true,
            AwaitedView::Certificate(settings) => is_bounded(settings),
            AwaitedView::Key(settings, _) => is_bounded(settings),
        },
        PreparationView::Ready(settings) => is_bounded(settings),
    }
}

/// Which file a preparation waits for, and what it has so far.
enum Awaited {
    Bundle,
    Certificate { config: ClientTlsConfig },
    Key { config: ClientTlsConfig, certificate: Vec<u8> },
}

/// Which file a preparation waits for, and what it has so far.
pub ghost enum AwaitedView {
    /// The CA bundle.
    Bundle,
    /// The client certificate, for a configuration with these settings.
    Certificate(TlsSettings),
    /// The key of this client certificate, for a configuration with these settings.
    Key(TlsSettings, Seq<u8>),
}

/// A preparation that waits for a file to be read.
pub struct Reading<'a> {
    options: &'a TlsOptions,
    host: &'a str,
    awaited: Awaited,
}

/// The state of a [`Reading`].
pub ghost struct ReadingView {
    /// The options that are prepared.
    pub options: TlsOptionsView,
    /// The host that is dialled.
    pub host: Seq<char>,
    /// The file that is waited for.
    pub awaited: AwaitedView,
}

/// How far a preparation is.
pub enum Preparation<'a> {
    /// It waits for a file.
    Read(Reading<'a>),
    /// It is done.
    Ready(ClientTlsConfig),
}

/// How far a preparation is.
pub ghost enum PreparationView {
    /// It waits for a file.
    Read(ReadingView),
    /// It is done, and the configuration has these settings.
    Ready(TlsSettings),
}

impl View for Reading<'_> {
    type V = ReadingView;

    closed spec fn view(&self) -> ReadingView {
        ReadingView {
            options: self.options@,
            host: self.host@,
            awaited: match self.awaited {
                Awaited::Bundle => AwaitedView::Bundle,
                Awaited::Certificate { config } => AwaitedView::Certificate(tls_settings(config)),
                Awaited::Key { config, certificate } => AwaitedView::Key(
                    tls_settings(config),
                    certificate@,
                ),
            },
        }
    }
}

impl View for Preparation<'_> {
    type V = PreparationView;

    open spec fn view(&self) -> PreparationView {
        match self {
            Preparation::Read(reading) => PreparationView::Read(reading@),
            Preparation::Ready(config) => PreparationView::Ready(tls_settings(*config)),
        }
    }
}

impl ReadingView {
    /// The file that is waited for.
    pub open spec fn path(self) -> PathBuf {
        match self.awaited {
            AwaitedView::Bundle => self.options.ca_certificate,
            AwaitedView::Certificate(_) => self.options.identity->0.certificate,
            AwaitedView::Key(..) => self.options.identity->0.key,
        }
    }

    /// The same preparation, waiting for another file.
    pub open spec fn awaiting(self, awaited: AwaitedView) -> PreparationView {
        PreparationView::Read(ReadingView { awaited, ..self })
    }

    /// What comes of reading the file that is waited for.
    pub open spec fn after(self, contents: Result<Seq<u8>, std::io::Error>) -> Result<
        PreparationView,
        BalanceError,
    > {
        let path = self.path();
        match (self.awaited, contents) {
            (AwaitedView::Bundle, Err(source)) => Err(BalanceError::CaUnreadable { path, source }),
            (AwaitedView::Bundle, Ok(pem)) => match bundle_error(path, pem) {
                Some(error) => Err(error),
                None => {
                    let settings = bundle_settings(self.options, self.host, pem);
                    if self.options.identity is Some {
                        Ok(self.awaiting(AwaitedView::Certificate(settings)))
                    } else {
                        Ok(PreparationView::Ready(settings))
                    }
                },
            },
            (AwaitedView::Certificate(_), Err(source)) => Err(
                BalanceError::ClientCertificateUnreadable { path, source },
            ),
            (AwaitedView::Certificate(settings), Ok(certificate)) => Ok(
                self.awaiting(AwaitedView::Key(settings, certificate)),
            ),
            (AwaitedView::Key(..), Err(source)) => Err(
                BalanceError::ClientKeyUnreadable { path, source },
            ),
            (AwaitedView::Key(settings, certificate), Ok(key)) => Ok(
                PreparationView::Ready(
                    TlsSettings { identity: Some((certificate, key)), ..settings },
                ),
            ),
        }
    }
}

impl TlsOptions {
    /// Starts to prepare these options for a dial to `host`: the CA bundle is read
    /// first.
    ///
    /// Everything that can be wrong about the configuration is found on the way,
    /// before a channel exists, and none of it leads to a weaker configuration. The
    /// platform's own trust store is never added beside the bundle.
    pub fn prepare<'a>(&'a self, host: &'a str) -> (res: Reading<'a>)
        ensures
            res@ == (ReadingView {
                options: self@,
                host: host@,
                awaited: AwaitedView::Bundle,
            }),
    {
        Reading { options: self, host, awaited: Awaited::Bundle }
    }
}

impl<'a> Reading<'a> {
    /// A client certificate is waited for only where one is configured, and for a
    /// configuration that bounds the handshake.
    #[verifier::type_invariant]
    closed spec fn wf(self) -> bool {
        match self.awaited {
            Awaited::Bundle => true,
            Awaited::Certificate { config } => self.options.identity is Some && is_bounded(
                tls_settings(config),
            ),
            Awaited::Key { config, .. } => self.options.identity is Some && is_bounded(
                tls_settings(config),
            ),
        }
    }

    /// The file to read next.
    pub fn path(&self) -> (res: &PathBuf)
        ensures
            *res == self@.path(),
    {
        proof {
            use_type_invariant(self);
        }
        match &self.awaited {
            Awaited::Bundle => &self.options.ca_certificate,
            Awaited::Certificate { .. } => match &self.options.identity {
                Some(identity) => &identity.certificate,
                None => &self.options.ca_certificate,
            },
            Awaited::Key { .. } => match &self.options.identity {
                Some(identity) => &identity.key,
                None => &self.options.ca_certificate,
            },
        }
    }

    /// The host that is dialled.
    pub(crate) fn host(&self) -> (res: &'a str)
        ensures
            res@ == self@.host,
    {
        self.host
    }

    /// Goes on with what reading that file gave.
    pub fn read(self, contents: Result<Vec<u8>, std::io::Error>) -> (res: Result<
        Preparation<'a>,
        BalanceError,
    >)
        ensures
            match res {
                Ok(next) => self@.after(contents_of(contents)) == Ok::<
                    PreparationView,
                    BalanceError,
                >(next@),
                Err(error) => self@.after(contents_of(contents)) == Err::<
                    PreparationView,
                    BalanceError,
                >(error),
            },
            res matches Ok(next) ==> bounds_its_handshake(next@),
            res matches Err(BalanceError::CaNoTrustAnchor { .. }) ==> (pem_certificates(
                contents_of(contents)->Ok_0,
            ) matches Ok(certificates) && certificates.len() <= usize::MAX),
    {
        let path = self.path().clone();
        proof {
            use_type_invariant(&self);
        }
        let Reading { options, host, awaited } = self;
        match awaited {
            Awaited::Bundle => {
                let pem = match contents {
                    Ok(pem) => pem,
                    Err(source) => {
                        return Err(BalanceError::CaUnreadable { path, source });
                    },
                };
                if let Err(error) = check_bundle(&path, &pem) {
                    return Err(error);
                }
                let config = options.configure(host, &pem);
                if options.identity.is_some() {
                    Ok(
                        Preparation::Read(
                            Reading { options, host, awaited: Awaited::Certificate { config } },
                        ),
                    )
                } else {
                    Ok(Preparation::Ready(config))
                }
            },
            Awaited::Certificate { config } => match contents {
                Ok(certificate) => Ok(
                    Preparation::Read(
                        Reading { options, host, awaited: Awaited::Key { config, certificate } },
                    ),
                ),
                Err(source) => Err(BalanceError::ClientCertificateUnreadable { path, source }),
            },
            Awaited::Key { config, certificate } => match contents {
                Ok(key) => Ok(Preparation::Ready(with_identity(config, certificate, key))),
                Err(source) => Err(BalanceError::ClientKeyUnreadable { path, source }),
            },
        }
    }
}

impl TlsOptions {
    /// The configuration that the bundle `pem` gives: the host is what the peer is
    /// verified against, not the address that is dialled, and the handshake is
    /// bounded like the connect before it.
    fn configure(&self, host: &str, pem: &Vec<u8>) -> (res: ClientTlsConfig)
        ensures
            tls_settings(res) == bundle_settings(self@, host@, pem@),
            is_bounded(tls_settings(res)),
    {
        let name: &str = match &self.domain_name {
            Some(name) => name.as_str(),
            None => host,
        };
        let config = with_ca_certificate(with_domain_name(ClientTlsConfig::new(), name), pem);
        config.timeout(std::time::Duration::from_secs(CONNECT_TIMEOUT_SECS))
    }
}

} // verus!
