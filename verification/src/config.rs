//! The node's TLS credentials, taken from PEM text: a chain of certificates
//! and exactly one private key in PKCS#8 form.

use vstd::prelude::*;

verus! {

/// The error that reading PEM text ends with.
#[verifier::external_type_specification]
#[verifier::external_body]
pub struct ExIoError(std::io::Error);

/// The certificates that PEM text holds, each in DER form, in the order of
/// the text; nothing where the text is broken.
pub uninterp spec fn pem_certificates(pem: Seq<u8>) -> Option<Seq<Seq<u8>>>;

/// The PKCS#8 private keys that PEM text holds, each in DER form, in the
/// order of the text; nothing where the text is broken.
pub uninterp spec fn pem_pkcs8_keys(pem: Seq<u8>) -> Option<Seq<Seq<u8>>>;

/// Why credentials could not be taken from PEM text.
#[derive(Debug, PartialEq, Eq)]
pub enum CertsError {
    /// The text is broken; the failure as the PEM reader words it.
    Pem(Vec<u8>),
    /// The text holds this many private keys, and not one.
    KeyCount(usize),
}

/// A chain of certificates and a private key, each in DER form.
#[derive(Debug, PartialEq, Eq)]
pub struct Credentials {
    pub certs: Vec<Vec<u8>>,
    pub key: Vec<u8>,
}

/// Calls `rustls_pemfile::certs` on a reader over `pem`. The call goes
/// through the sections of the text to its end, keeps the certificates, and
/// fails where a section is broken; what it returns depends on the text
/// alone.
#[verifier::external_body]
fn certs(pem: &[u8]) -> (r: Result<Vec<Vec<u8>>, std::io::Error>)
    ensures
        match r {
            Ok(found) => pem_certificates(pem@) == Some(found.deep_view()),
            Err(_) => pem_certificates(pem@) is None,
        },
{
    let mut reader = pem;
    rustls_pemfile::certs(&mut reader)
}

/// Calls `rustls_pemfile::pkcs8_private_keys` on a reader over `pem`. The
/// call goes through the sections of the text to its end, keeps the PKCS#8
/// keys, and fails where a section is broken; what it returns depends on the
/// text alone.
#[verifier::external_body]
fn pkcs8_private_keys(pem: &[u8]) -> (r: Result<Vec<Vec<u8>>, std::io::Error>)
    ensures
        match r {
            Ok(found) => pem_pkcs8_keys(pem@) == Some(found.deep_view()),
            Err(_) => pem_pkcs8_keys(pem@) is None,
        },
{
    let mut reader = pem;
    rustls_pemfile::pkcs8_private_keys(&mut reader)
}

/// The wording of an error, as the standard library's `Display` gives it.
#[verifier::external_body]
fn error_text(e: &std::io::Error) -> (text: Vec<u8>) {
    e.to_string().into_bytes()
}

/// The one key of a list of keys.
pub fn single_key(mut keys: Vec<Vec<u8>>) -> (r: Result<Vec<u8>, CertsError>)
    ensures
        match r {
            Ok(key) => keys.deep_view() == seq![key@],
            Err(e) => keys@.len() != 1 && e == CertsError::KeyCount(keys.len()),
        },
{
    let n = keys.len();
    if n != 1 {
        return Err(CertsError::KeyCount(n));
    }
    let ghost deep = keys.deep_view();
    let key = keys.remove(0);
    proof {
        assert(deep.len() == 1);
        assert(deep[0] =~= key@);
        assert(deep =~= seq![key@]);
    }
    Ok(key)
}

/// The chain of certificates that the PEM text of a certificate file holds.
pub fn read_cert_chain(cert_pem: &[u8]) -> (r: Result<Vec<Vec<u8>>, CertsError>)
    ensures
        match r {
            Ok(chain) => pem_certificates(cert_pem@) == Some(chain.deep_view()),
            Err(e) => e is Pem && pem_certificates(cert_pem@) is None,
        },
{
    match certs(cert_pem) {
        Ok(found) => Ok(found),
        Err(e) => Err(CertsError::Pem(error_text(&e))),
    }
}

/// The private key that the PEM text of a key file holds. The text has to
/// hold exactly one PKCS#8 key; keys in other forms do not count.
pub fn read_private_key(key_pem: &[u8]) -> (r: Result<Vec<u8>, CertsError>)
    ensures
        match r {
            Ok(key) => pem_pkcs8_keys(key_pem@) == Some(seq![key@]),
            Err(CertsError::Pem(_)) => pem_pkcs8_keys(key_pem@) is None,
            Err(CertsError::KeyCount(n)) => {
                &&& pem_pkcs8_keys(key_pem@) is Some
                &&& pem_pkcs8_keys(key_pem@)->Some_0.len() == n
                &&& n != 1
            },
        },
{
    match pkcs8_private_keys(key_pem) {
        Ok(found) => single_key(found),
        Err(e) => Err(CertsError::Pem(error_text(&e))),
    }
}

/// Takes the credentials from the PEM text of a certificate file and of a
/// key file: the certificates first, then the key.
pub fn read_certs(cert_pem: &[u8], key_pem: &[u8]) -> (r: Result<Credentials, CertsError>)
    ensures
        match r {
            Ok(c) => {
                &&& pem_certificates(cert_pem@) == Some(c.certs.deep_view())
                &&& pem_pkcs8_keys(key_pem@) == Some(seq![c.key@])
            },
            Err(CertsError::Pem(_)) => pem_certificates(cert_pem@) is None || pem_pkcs8_keys(
                key_pem@,
            ) is None,
            Err(CertsError::KeyCount(n)) => {
                &&& pem_certificates(cert_pem@) is Some
                &&& pem_pkcs8_keys(key_pem@) is Some
                &&& pem_pkcs8_keys(key_pem@)->Some_0.len() == n
                &&& n != 1
            },
        },
{
    let certs = match read_cert_chain(cert_pem) {
        Ok(chain) => chain,
        Err(e) => {
            return Err(e);
        },
    };
    match read_private_key(key_pem) {
        Ok(key) => Ok(Credentials { certs, key }),
        Err(e) => Err(e),
    }
}

} // verus!
