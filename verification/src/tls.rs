//! The server's identity towards its clients: its certificates and its key, out of PEM text.

use vstd::prelude::*;

verus! {

/// Why there is no identity.
#[derive(Clone, Copy, Debug, PartialEq, Eq, Structural)]
pub enum TlsFault {
    /// The text with the certificates could not be read.
    BadCertificates,
    /// The text with the keys could not be read.
    BadKeys,
    /// There is no key in the text.
    NoKey,
}

impl TlsFault {
    /// The text of a fault.
    pub open spec fn wording(self) -> Seq<char> {
        match self {
            TlsFault::BadCertificates => "Invalid certificate data"@,
            TlsFault::BadKeys => "Invalid private key data"@,
            TlsFault::NoKey => "No private keys found"@,
        }
    }

    /// The text of a fault.
    pub fn text(&self) -> (text: &'static str)
        ensures
            text@ == self.wording(),
    {
        match self {
            TlsFault::BadCertificates => "Invalid certificate data",
            TlsFault::BadKeys => "Invalid private key data",
            TlsFault::NoKey => "No private keys found",
        }
    }
}

/// Some blocks of bytes, as mathematical values.
pub open spec fn contents(blocks: Seq<Vec<u8>>) -> Seq<Seq<u8>> {
    blocks.map_values(|block: Vec<u8>| block@)
}

/// What reading blocks of bytes gave, as a mathematical value: `None` where it failed.
pub open spec fn blocks(read: Option<Vec<Vec<u8>>>) -> Option<Seq<Seq<u8>>> {
    match read {
        Some(read) => Some(contents(read@)),
        None => None,
    }
}

/// The certificates that `rustls_pemfile` finds in a PEM text, each in DER form: `None` where it
/// cannot read the text.
pub uninterp spec fn pem_certificates(pem: Seq<u8>) -> Option<Seq<Seq<u8>>>;

/// `rustls_pemfile::certs` on bytes in memory. The outcome is a function of the bytes; what kind
/// of error it is is left out.
#[verifier::external_body]
fn read_certificates(pem: &[u8]) -> (r: Option<Vec<Vec<u8>>>)
    ensures
        blocks(r) == pem_certificates(pem@),
{
    let mut reader = pem;
    rustls_pemfile::certs(&mut reader).ok()
}

/// The PKCS #8 private keys that `rustls_pemfile` finds in a PEM text, each in DER form: `None`
/// where it cannot read the text.
pub uninterp spec fn pem_keys(pem: Seq<u8>) -> Option<Seq<Seq<u8>>>;

/// `rustls_pemfile::pkcs8_private_keys` on bytes in memory. The outcome is a function of the
/// bytes; what kind of error it is is left out.
#[verifier::external_body]
fn read_keys(pem: &[u8]) -> (r: Option<Vec<Vec<u8>>>)
    ensures
        blocks(r) == pem_keys(pem@),
{
    let mut reader = pem;
    rustls_pemfile::pkcs8_private_keys(&mut reader).ok()
}

/// The certificates of a server, the one for its key first, and that key, all in DER form.
pub struct TlsIdentity {
    pub certificates: Vec<Vec<u8>>,
    pub key: Vec<u8>,
}

/// Whether this is the identity that certificates and keys give: all certificates and the first
/// key, refused for the certificates first, then for the keys, then for want of a key.
pub open spec fn identifies(
    certificates: Option<Seq<Seq<u8>>>,
    keys: Option<Seq<Seq<u8>>>,
    identity: Result<TlsIdentity, TlsFault>,
) -> bool {
    match (certificates, keys) {
        (None, _) => identity == Err::<TlsIdentity, TlsFault>(TlsFault::BadCertificates),
        (Some(_), None) => identity == Err::<TlsIdentity, TlsFault>(TlsFault::BadKeys),
        (Some(chain), Some(keys)) => if keys.len() == 0 {
            identity == Err::<TlsIdentity, TlsFault>(TlsFault::NoKey)
        } else {
            &&& identity matches Ok(identity)
            &&& contents(identity.certificates@) =~= chain
            &&& identity.key@ == keys[0]
        },
    }
}

/// The identity that certificates and keys give. What could not be read is `None`.
pub fn choose_identity(
    certificates: Option<Vec<Vec<u8>>>,
    keys: Option<Vec<Vec<u8>>>,
) -> (identity: Result<TlsIdentity, TlsFault>)
    ensures
        identifies(blocks(certificates), blocks(keys), identity),
{
    let certificates = match certificates {
        Some(certificates) => certificates,
        None => {
            return Err(TlsFault::BadCertificates);
        },
    };
    let mut keys = match keys {
        Some(keys) => keys,
        None => {
            return Err(TlsFault::BadKeys);
        },
    };
    if keys.len() == 0 {
        return Err(TlsFault::NoKey);
    }
    let key = keys.remove(0);
    Ok(TlsIdentity { certificates, key })
}

/// The identity of a server, out of PEM text with its certificates and PEM text with its key.
pub fn tls_identity(cert_pem: &[u8], key_pem: &[u8]) -> (identity: Result<TlsIdentity, TlsFault>)
    ensures
        identifies(pem_certificates(cert_pem@), pem_keys(key_pem@), identity),
{
    choose_identity(read_certificates(cert_pem), read_keys(key_pem))
}

/// There is an identity just where both texts can be read and there is a key; then no certificate
/// is lost and the key is the first one. Which fault is told goes by what fails first.
pub proof fn law_identity_is_complete(
    cert_pem: &[u8],
    key_pem: &[u8],
    identity: Result<TlsIdentity, TlsFault>,
)
    requires
        call_ensures(tls_identity, (cert_pem, key_pem), identity),
    ensures
        identity is Ok <==> pem_certificates(cert_pem@) is Some && pem_keys(key_pem@) is Some
            && pem_keys(key_pem@)->0.len() > 0,
        identity matches Ok(identity) ==> {
            &&& identity.certificates.len() == pem_certificates(cert_pem@)->0.len()
            &&& forall|i: int|
                0 <= i < identity.certificates.len() ==> (#[trigger] identity.certificates@[i])@
                    == pem_certificates(cert_pem@)->0[i]
            &&& identity.key@ == pem_keys(key_pem@)->0[0]
        },
        identity matches Err(fault) ==> {
            &&& fault is BadCertificates <==> pem_certificates(cert_pem@) is None
            &&& fault is NoKey ==> pem_keys(key_pem@) is Some
            &&& fault is BadKeys ==> pem_keys(key_pem@) is None
        },
{
    if let Ok(identity) = identity {
        let chain = pem_certificates(cert_pem@)->0;
        assert forall|i: int| 0 <= i < identity.certificates.len() implies (
        #[trigger] identity.certificates@[i])@ == chain[i] by {
            assert(contents(identity.certificates@)[i] == chain[i]);
        }
    }
}

} // verus!
