//! What this crate takes on trust from `rustls` and `rustls-pki-types`: reading a
//! PEM bundle, and telling which of its certificates can anchor trust.

use rustls_pki_types::pem::PemObject;
use rustls_pki_types::CertificateDer;
use vstd::prelude::*;

verus! {

/// Why a PEM text could not be decoded. It is carried into an error.
#[verifier::external_type_specification]
#[verifier::external_body]
pub struct ExPemError(rustls_pki_types::pem::Error);

/// The bodies of the certificate sections of a PEM text, in their order, or why
/// the text could not be decoded.
pub uninterp spec fn pem_certificates(pem: Seq<u8>) -> Result<
    Seq<Seq<u8>>,
    rustls_pki_types::pem::Error,
>;

/// The bytes of each body in a list.
pub open spec fn bodies(certificates: Seq<Vec<u8>>) -> Seq<Seq<u8>> {
    certificates.map_values(|body: Vec<u8>| body@)
}

/// `CertificateDer::pem_slice_iter`, run to its end or to its first error. What it
/// yields depends on the bytes alone.
#[verifier::external_body]
pub(crate) fn read_pem_certificates(pem: &Vec<u8>) -> (res: Result<
    Vec<Vec<u8>>,
    rustls_pki_types::pem::Error,
>)
    ensures
        match res {
            Ok(certificates) => pem_certificates(pem@) == Ok::<
                Seq<Seq<u8>>,
                rustls_pki_types::pem::Error,
            >(bodies(certificates@)),
            Err(error) => pem_certificates(pem@) == Err::<
                Seq<Seq<u8>>,
                rustls_pki_types::pem::Error,
            >(error),
        },
{
    CertificateDer::pem_slice_iter(pem)
        .map(|section| section.map(|der| der.as_ref().to_vec()))
        .collect()
}

/// Whether the bytes are a certificate that can anchor trust.
pub uninterp spec fn is_trust_anchor(der: Seq<u8>) -> bool;

/// `RootCertStore::add_parsable_certificates` on an empty store: how many of the
/// certificates it accepted, and how many it passed over. Whether a certificate is
/// accepted depends on its bytes alone.
#[verifier::external_body]
pub(crate) fn count_trust_anchors(certificates: &Vec<Vec<u8>>) -> (res: (usize, usize))
    ensures
        res.0 == bodies(certificates@).filter(|der: Seq<u8>| is_trust_anchor(der)).len(),
        res.0 + res.1 == certificates.len(),
{
    rustls::RootCertStore::empty().add_parsable_certificates(
        certificates.iter().map(|der| CertificateDer::from_slice(der)),
    )
}

} // verus!
