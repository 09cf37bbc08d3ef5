//! The TLS material a server is configured with, as DER bytes.
use vstd::prelude::*;

verus! {

/// The DER bytes of the first certificate in a PEM text, if any.
pub uninterp spec fn pem_certificate(pem: Seq<u8>) -> Option<Seq<u8>>;

/// The DER bytes of the first private key in a PEM text, if any.
pub uninterp spec fn pem_private_key(pem: Seq<u8>) -> Option<Seq<u8>>;

/// Relies on `rustls_pki_types::CertificateDer::from_pem_slice`: the first
/// certificate section, decoded; `None` when there is none or it is malformed.
#[verifier::external_body]
fn certificate_der(pem: &[u8]) -> (r: Option<Vec<u8>>)
    ensures
        r is Some <==> pem_certificate(pem@) is Some,
        r is Some ==> r->0@ == pem_certificate(pem@)->0,
{
    <rustls_pki_types::CertificateDer as rustls_pki_types::pem::PemObject>::from_pem_slice(pem).ok().map(
        |c| c.to_vec(),
    )
}

/// Relies on `rustls_pki_types::PrivateKeyDer::from_pem_slice` and
/// `PrivateKeyDer::secret_der`: the first private key section, decoded;
/// `None` when there is none or it is malformed.
#[verifier::external_body]
fn private_key_der(pem: &[u8]) -> (r: Option<Vec<u8>>)
    ensures
        r is Some <==> pem_private_key(pem@) is Some,
        r is Some ==> r->0@ == pem_private_key(pem@)->0,
{
    <rustls_pki_types::PrivateKeyDer as rustls_pki_types::pem::PemObject>::from_pem_slice(pem).ok().map(
        |k| k.secret_der().to_vec(),
    )
}

/// Root certificate, server certificate and server key pair, as DER bytes.
#[derive(Debug)]
pub struct MockServerTlsConfig {
    pub root_cert_der: Vec<u8>,
    pub server_cert_der: Vec<u8>,
    pub server_keypair_der: Vec<u8>,
}

impl MockServerTlsConfig {
    pub fn from_der(root_cert_der: Vec<u8>, server_cert_der: Vec<u8>, server_keypair_der: Vec<u8>) -> (r:
        MockServerTlsConfig)
        ensures
            r.root_cert_der@ == root_cert_der@,
            r.server_cert_der@ == server_cert_der@,
            r.server_keypair_der@ == server_keypair_der@,
    {
        MockServerTlsConfig { root_cert_der, server_cert_der, server_keypair_der }
    }

    /// The material given as PEM texts.
    pub fn from_pem(root_cert_pem: &[u8], server_cert_pem: &[u8], server_keypair_pem: &[u8]) -> (r:
        MockServerTlsConfig)
        requires
            pem_certificate(root_cert_pem@) is Some,
            pem_certificate(server_cert_pem@) is Some,
            pem_private_key(server_keypair_pem@) is Some,
        ensures
            r.root_cert_der@ == pem_certificate(root_cert_pem@)->0,
            r.server_cert_der@ == pem_certificate(server_cert_pem@)->0,
            r.server_keypair_der@ == pem_private_key(server_keypair_pem@)->0,
    {
        let root = certificate_der(root_cert_pem).unwrap();
        let server = certificate_der(server_cert_pem).unwrap();
        let key = private_key_der(server_keypair_pem).unwrap();
        MockServerTlsConfig::from_der(root, server, key)
    }

    /// The material given as PEM texts, or `None` when one of them holds no
    /// well-formed section of its kind.
    pub fn try_from_pem(root_cert_pem: &[u8], server_cert_pem: &[u8], server_keypair_pem: &[u8]) -> (r:
        Option<MockServerTlsConfig>)
        ensures
            r is Some <==> (pem_certificate(root_cert_pem@) is Some && pem_certificate(
                server_cert_pem@,
            ) is Some && pem_private_key(server_keypair_pem@) is Some),
            r is Some ==> ((r->0).root_cert_der@ == pem_certificate(root_cert_pem@)->0 && (
            r->0).server_cert_der@ == pem_certificate(server_cert_pem@)->0 && (
            r->0).server_keypair_der@ == pem_private_key(server_keypair_pem@)->0),
    {
        if certificate_der(root_cert_pem).is_none() || certificate_der(server_cert_pem).is_none()
            || private_key_der(server_keypair_pem).is_none() {
            return None;
        }
        Some(MockServerTlsConfig::from_pem(root_cert_pem, server_cert_pem, server_keypair_pem))
    }
}

} // verus!
