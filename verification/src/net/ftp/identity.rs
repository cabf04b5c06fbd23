//! The certificate and private key with which the client names itself to an FTPS server.

use vstd::prelude::*;

use suppaftp::rustls::pki_types::pem::PemObject;
use suppaftp::rustls::pki_types::{CertificateDer, PrivateKeyDer};

use crate::net::error::NetError;
use crate::net::ftp::transport::ftp_error;
use crate::text::plus;

verus! {

/// A private key out of a PEM file.
#[derive(Debug, PartialEq, Eq)]
pub struct PemKey {
    /// It is in unencrypted PKCS#8 form.
    pub pkcs8: bool,
    pub der: Vec<u8>,
}

pub ghost struct PemKeyView {
    pub pkcs8: bool,
    pub der: Seq<u8>,
}

impl View for PemKey {
    type V = PemKeyView;

    open spec fn view(&self) -> PemKeyView {
        PemKeyView { pkcs8: self.pkcs8, der: self.der@ }
    }
}

pub open spec fn certificate_views(items: Seq<Result<Vec<u8>, String>>) -> Seq<
    Result<Seq<u8>, Seq<char>>,
> {
    items.map_values(
        |item: Result<Vec<u8>, String>|
            match item {
                Ok(der) => Ok::<Seq<u8>, Seq<char>>(der@),
                Err(e) => Err(e@),
            },
    )
}

pub open spec fn key_views(items: Seq<Result<PemKey, String>>) -> Seq<
    Result<PemKeyView, Seq<char>>,
> {
    items.map_values(
        |item: Result<PemKey, String>|
            match item {
                Ok(key) => Ok::<PemKeyView, Seq<char>>(key@),
                Err(e) => Err(e@),
            },
    )
}

/// The certificates of a PEM text in their order, with the message of each section that cannot be
/// decoded.
pub uninterp spec fn certificates_in(pem: Seq<u8>) -> Seq<Result<Seq<u8>, Seq<char>>>;

/// The private keys of a PEM text in their order, with the message of each section that cannot be
/// decoded.
pub uninterp spec fn private_keys_in(pem: Seq<u8>) -> Seq<Result<PemKeyView, Seq<char>>>;

/// `CertificateDer::pem_slice_iter` of `rustls::pki_types`, item by item: the DER bytes of each
/// certificate, or the text of the error. The items are a function of the bytes alone and go by the
/// name `certificates_in`.
#[verifier::external_body]
pub(crate) fn read_certificates(pem: &[u8]) -> (r: Vec<Result<Vec<u8>, String>>)
    ensures
        certificate_views(r@) == certificates_in(pem@),
{
    CertificateDer::pem_slice_iter(pem)
        .map(|item| item.map(|c| c.to_vec()).map_err(|e| e.to_string()))
        .collect()
}

/// `PrivateKeyDer::pem_slice_iter` of `rustls::pki_types`, item by item: the DER bytes of each key
/// and whether it is the variant `Pkcs8`, or the text of the error. The items are a function of the
/// bytes alone and go by the name `private_keys_in`.
#[verifier::external_body]
pub(crate) fn read_private_keys(pem: &[u8]) -> (r: Vec<Result<PemKey, String>>)
    ensures
        key_views(r@) == private_keys_in(pem@),
{
    PrivateKeyDer::pem_slice_iter(pem)
        .map(|item| match item {
            Ok(PrivateKeyDer::Pkcs8(key)) => {
                Ok(PemKey { pkcs8: true, der: key.secret_pkcs8_der().to_vec() })
            }
            Ok(key) => Ok(PemKey { pkcs8: false, der: key.secret_der().to_vec() }),
            Err(error) => Err(error.to_string()),
        })
        .collect()
}

/// What the client shows to the server: the chain of its certificate, and the key to it.
#[derive(Debug, PartialEq, Eq)]
pub struct ClientIdentity {
    pub certificates: Vec<Vec<u8>>,
    pub private_key: Vec<u8>,
}

pub ghost struct IdentityView {
    pub certificates: Seq<Seq<u8>>,
    pub private_key: Seq<u8>,
}

impl View for ClientIdentity {
    type V = IdentityView;

    open spec fn view(&self) -> IdentityView {
        IdentityView {
            certificates: byte_views(self.certificates@),
            private_key: self.private_key@,
        }
    }
}

pub open spec fn byte_views(items: Seq<Vec<u8>>) -> Seq<Seq<u8>> {
    items.map_values(|v: Vec<u8>| v@)
}

/// All of the items, or the first of the errors.
pub open spec fn all_decoded(items: Seq<Result<Seq<u8>, Seq<char>>>) -> Result<
    Seq<Seq<u8>>,
    Seq<char>,
>
    decreases items.len(),
{
    if items.len() == 0 {
        Ok(Seq::empty())
    } else {
        match all_decoded(items.drop_last()) {
            Err(e) => Err(e),
            Ok(before) => match items.last() {
                Err(e) => Err(e),
                Ok(der) => Ok(before.push(der)),
            },
        }
    }
}

/// The only key among the items, in PKCS#8 form. Nothing behind the second item is looked at.
pub open spec fn only_key(keys: Seq<Result<PemKeyView, Seq<char>>>) -> Result<Seq<u8>, Seq<char>> {
    if keys.len() == 0 {
        Err("FTPS client key file contains no private key"@)
    } else {
        match keys[0] {
            Err(e) => Err("invalid FTPS client private-key PEM: "@ + e),
            Ok(key) => if !key.pkcs8 {
                Err("FTPS client private key must use unencrypted PKCS#8 PEM format"@)
            } else if keys.len() == 1 {
                Ok(key.der)
            } else {
                match keys[1] {
                    Err(e) => Err("invalid FTPS client private-key PEM: "@ + e),
                    Ok(_) => Err("FTPS client key file must contain exactly one private key"@),
                }
            },
        }
    }
}

/// The identity that the two files hold, or why they hold none: the certificates are looked at first.
pub open spec fn identity_of(
    certificates: Seq<Result<Seq<u8>, Seq<char>>>,
    keys: Seq<Result<PemKeyView, Seq<char>>>,
) -> Result<IdentityView, Seq<char>> {
    match all_decoded(certificates) {
        Err(e) => Err("invalid FTPS client certificate PEM: "@ + e),
        Ok(chain) => if chain.len() == 0 {
            Err("FTPS client certificate PEM contains no certificates"@)
        } else {
            match only_key(keys) {
                Err(e) => Err(e),
                Ok(key) => Ok(IdentityView { certificates: chain, private_key: key }),
            }
        },
    }
}

/// `r` tells what came of an identity.
pub open spec fn tells_identity(
    r: Result<ClientIdentity, NetError>,
    identity: Result<IdentityView, Seq<char>>,
) -> bool {
    match identity {
        Ok(view) => r matches Ok(found) && found@ == view,
        Err(text) => r matches Err(e) && ftp_error(e, text),
    }
}

fn collect_certificates(items: Vec<Result<Vec<u8>, String>>) -> (r: Result<Vec<Vec<u8>>, String>)
    ensures
        match all_decoded(certificate_views(items@)) {
            Ok(chain) => r matches Ok(found) && byte_views(found@) == chain,
            Err(text) => r matches Err(e) && e@ == text,
        },
{
    let mut chain: Vec<Vec<u8>> = Vec::new();
    let mut rest: Vec<Result<Vec<u8>, String>> = items;
    let ghost all = certificate_views(items@);
    let n: usize = rest.len();
    let mut i: usize = 0;
    assert(byte_views(chain@) =~= Seq::<Seq<u8>>::empty());
    assert(all.take(0) =~= Seq::<Result<Seq<u8>, Seq<char>>>::empty());
    while i < n
        invariant
            i <= n,
            n == items@.len(),
            all == certificate_views(items@),
            rest@ == items@.skip(i as int),
            all_decoded(all.take(i as int)) == Ok::<Seq<Seq<u8>>, Seq<char>>(byte_views(chain@)),
        decreases n - i,
    {
        let item: Result<Vec<u8>, String> = rest.remove(0);
        proof {
            assert(item == items@[i as int]);
            assert(rest@ =~= items@.skip(i + 1));
            assert(all.take(i + 1).drop_last() =~= all.take(i as int));
            assert(all.take(i + 1).last() == all[i as int]);
        }
        match item {
            Ok(der) => {
                let ghost before = byte_views(chain@);
                chain.push(der);
                assert(byte_views(chain@) =~= before.push(der@));
            },
            Err(e) => {
                proof {
                    lemma_first_error_stays(all, i + 1);
                }
                return Err(e);
            },
        }
        i += 1;
    }
    assert(all.take(n as int) =~= all);
    Ok(chain)
}

/// An error among the first items is the error of all of them.
proof fn lemma_first_error_stays(items: Seq<Result<Seq<u8>, Seq<char>>>, n: int)
    requires
        0 <= n <= items.len(),
        all_decoded(items.take(n)) is Err,
    ensures
        all_decoded(items) == all_decoded(items.take(n)),
    decreases items.len() - n,
{
    if n < items.len() {
        assert(items.take(n + 1).drop_last() =~= items.take(n));
        lemma_first_error_stays(items, n + 1);
    } else {
        assert(items.take(n) =~= items);
    }
}

/// Decide on what was decoded from the certificate file and from the key file.
pub fn identity_from(
    certificates: Vec<Result<Vec<u8>, String>>,
    keys: Vec<Result<PemKey, String>>,
) -> (r: Result<ClientIdentity, NetError>)
    ensures
        tells_identity(r, identity_of(certificate_views(certificates@), key_views(keys@))),
{
    let chain: Vec<Vec<u8>> = match collect_certificates(certificates) {
        Ok(chain) => chain,
        Err(e) => {
            return Err(
                NetError::Ftp(
                    plus("invalid FTPS client certificate PEM: ".to_owned(), e.as_str()),
                ),
            );
        },
    };
    assert(byte_views(chain@).len() == chain@.len());
    if chain.len() == 0 {
        return Err(
            NetError::Ftp("FTPS client certificate PEM contains no certificates".to_owned()),
        );
    }
    let mut rest: Vec<Result<PemKey, String>> = keys;
    if rest.len() == 0 {
        return Err(NetError::Ftp("FTPS client key file contains no private key".to_owned()));
    }
    let first: Result<PemKey, String> = rest.remove(0);
    assert(first == keys@[0]);
    let key: PemKey = match first {
        Ok(key) => key,
        Err(e) => {
            return Err(invalid_key(e.as_str()));
        },
    };
    if !key.pkcs8 {
        return Err(
            NetError::Ftp(
                "FTPS client private key must use unencrypted PKCS#8 PEM format".to_owned(),
            ),
        );
    }
    if rest.len() > 0 {
        assert(rest@[0] == keys@[1]);
        return match &rest[0] {
            Ok(_) => Err(
                NetError::Ftp(
                    "FTPS client key file must contain exactly one private key".to_owned(),
                ),
            ),
            Err(e) => Err(invalid_key(e.as_str())),
        };
    }
    Ok(ClientIdentity { certificates: chain, private_key: key.der })
}

fn invalid_key(detail: &str) -> (r: NetError)
    ensures
        ftp_error(r, "invalid FTPS client private-key PEM: "@ + detail@),
{
    NetError::Ftp(plus("invalid FTPS client private-key PEM: ".to_owned(), detail))
}

/// The identity in a certificate file and a key file, both in PEM form.
pub fn rustls_client_identity(certificate: &[u8], key: &[u8]) -> (r: Result<
    ClientIdentity,
    NetError,
>)
    ensures
        tells_identity(r, identity_of(certificates_in(certificate@), private_keys_in(key@))),
{
    identity_from(read_certificates(certificate), read_private_keys(key))
}

/// An accepted identity has a certificate, and its key is the only one of the key file.
pub proof fn identities_are_unambiguous(
    certificates: Seq<Result<Seq<u8>, Seq<char>>>,
    keys: Seq<Result<PemKeyView, Seq<char>>>,
)
    requires
        identity_of(certificates, keys) is Ok,
    ensures
        certificates.len() > 0,
        identity_of(certificates, keys)->Ok_0.certificates.len() == certificates.len(),
        keys.len() == 1,
        keys[0] matches Ok(key) && key.pkcs8 && key.der == identity_of(
            certificates,
            keys,
        )->Ok_0.private_key,
{
    lemma_all_decoded_len(certificates);
}

proof fn lemma_all_decoded_len(items: Seq<Result<Seq<u8>, Seq<char>>>)
    ensures
        all_decoded(items) matches Ok(chain) ==> chain.len() == items.len(),
    decreases items.len(),
{
    if items.len() > 0 {
        lemma_all_decoded_len(items.drop_last());
    }
}

} // verus!
