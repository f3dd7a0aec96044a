use vstd::prelude::*;
use crate::commands::str_equal;

verus! {

/// The kinds of sections a PEM file holds.
#[derive(Clone, Copy, PartialEq, Eq, Structural, Debug)]
pub enum PemItemKind {
    RsaKey,
    Pkcs8Key,
    EcKey,
    X509Certificate,
    Other,
}

#[verifier::external_type_specification]
#[verifier::external_body]
pub struct ExIoError(std::io::Error);

/// The sections of a PEM file, each with its DER bytes, or `None` where
/// the file cannot be read as PEM.
pub uninterp spec fn pem_sections(bytes: Seq<u8>) -> Option<Seq<(PemItemKind, Seq<u8>)>>;

/// The DER bytes of the certificates of a PEM file, or `None` where the
/// file cannot be read as PEM.
pub uninterp spec fn pem_certificates(bytes: Seq<u8>) -> Option<Seq<Seq<u8>>>;

/// The sections of a PEM file as `(kind, bytes)` views.
pub open spec fn sections_view(items: Seq<(PemItemKind, Vec<u8>)>) -> Seq<(PemItemKind, Seq<u8>)> {
    items.map_values(|item: (PemItemKind, Vec<u8>)| (item.0, item.1@))
}

/// `rustls_pemfile::read_all` on the bytes of a file: every section it
/// recognises, in order, with its kind (a revocation list, or a kind the
/// crate adds later, counts as `Other`); an error where the PEM framing or
/// the base64 inside is broken.  The result depends on the bytes alone.
#[verifier::external_body]
fn read_pem_sections(bytes: &Vec<u8>) -> (read: Result<Vec<(PemItemKind, Vec<u8>)>, std::io::Error>)
    ensures
        (match read {
            Ok(items) => pem_sections(bytes@) == Some(sections_view(items@)),
            Err(_) => pem_sections(bytes@) is None,
        }),
{
    let mut reader: &[u8] = bytes.as_slice();
    rustls_pemfile::read_all(&mut reader).map(|items| items.into_iter().map(|item| match item {
        rustls_pemfile::Item::RSAKey(v) => (PemItemKind::RsaKey, v),
        rustls_pemfile::Item::PKCS8Key(v) => (PemItemKind::Pkcs8Key, v),
        rustls_pemfile::Item::ECKey(v) => (PemItemKind::EcKey, v),
        rustls_pemfile::Item::X509Certificate(v) => (PemItemKind::X509Certificate, v),
        rustls_pemfile::Item::Crl(v) => (PemItemKind::Other, v),
        _ => (PemItemKind::Other, Vec::new()),
    }).collect())
}

/// `rustls_pemfile::certs` on the bytes of a file: the DER bytes of every
/// certificate section, in order; an error where the file cannot be read
/// as PEM.  The result depends on the bytes alone.
#[verifier::external_body]
fn read_pem_certificates(bytes: &Vec<u8>) -> (read: Result<Vec<Vec<u8>>, std::io::Error>)
    ensures
        (match read {
            Ok(certs) => pem_certificates(bytes@) == Some(certs@.map_values(|c: Vec<u8>| c@)),
            Err(_) => pem_certificates(bytes@) is None,
        }),
{
    let mut reader: &[u8] = bytes.as_slice();
    rustls_pemfile::certs(&mut reader)
}

pub open spec fn is_usable_key(kind: PemItemKind) -> bool {
    kind == PemItemKind::RsaKey || kind == PemItemKind::Pkcs8Key
}

/// The position of the first RSA or PKCS#8 key among the sections of a
/// PEM file: the private key the server uses for QUIC.
pub fn first_private_key(items: &Vec<(PemItemKind, Vec<u8>)>) -> (found: Option<usize>)
    ensures
        (match found {
            Some(i) => i < items@.len() && is_usable_key(items@[i as int].0) && forall|k: int|
                0 <= k < i ==> !is_usable_key(#[trigger] items@[k].0),
            None => forall|k: int| 0 <= k < items@.len() ==> !is_usable_key(#[trigger] items@[k].0),
        }),
{
    let mut i: usize = 0;
    while i < items.len()
        invariant
            i <= items.len(),
            forall|k: int| 0 <= k < i ==> !is_usable_key(#[trigger] items@[k].0),
        decreases items.len() - i,
    {
        match items[i].0 {
            PemItemKind::RsaKey | PemItemKind::Pkcs8Key => {
                return Some(i);
            },
            _ => {},
        }
        i = i + 1;
    }
    None
}

/// Whether a key or certificate file is read as DER (its extension is
/// `der`) rather than PEM.
pub fn is_der_file(extension: Option<&str>) -> (der: bool)
    ensures
        der == (extension matches Some(e) && e@ == "der"@),
{
    match extension {
        Some(e) => str_equal(e, "der"),
        None => false,
    }
}

/// Why a TLS key or certificate file cannot be used.
#[derive(Clone, Copy, PartialEq, Eq, Structural, Debug)]
pub enum TlsFileError {
    /// The file is not well-formed PEM.
    MalformedPem,
    /// The PEM file holds no RSA or PKCS#8 key.
    NoValidPemKey,
}

/// The bytes of the first usable key among PEM sections.
pub open spec fn first_usable_key(items: Seq<(PemItemKind, Seq<u8>)>) -> Option<Seq<u8>>
    decreases items.len(),
{
    if items.len() == 0 {
        None
    } else if is_usable_key(items[0].0) {
        Some(items[0].1)
    } else {
        first_usable_key(items.drop_first())
    }
}

proof fn lemma_first_usable_key(items: Seq<(PemItemKind, Seq<u8>)>, i: int)
    requires
        0 <= i <= items.len(),
        forall|k: int| 0 <= k < i ==> !is_usable_key(#[trigger] items[k].0),
    ensures
        first_usable_key(items) == first_usable_key(items.skip(i)),
    decreases i,
{
    if i > 0 {
        assert(!is_usable_key(items[0].0));
        assert(items.drop_first().skip(i - 1) =~= items.skip(i));
        assert forall|k: int| 0 <= k < i - 1 implies !is_usable_key(#[trigger] items.drop_first()[k].0) by {
            assert(items.drop_first()[k] == items[k + 1]);
        }
        lemma_first_usable_key(items.drop_first(), i - 1);
    } else {
        assert(items.skip(0) =~= items);
    }
}

/// The DER bytes of the QUIC private key held in a key file: the file
/// itself where it is DER, else the first RSA or PKCS#8 key of the PEM
/// file.
pub fn quic_private_key(key_is_der: bool, key_file: Vec<u8>) -> (key: Result<Vec<u8>, TlsFileError>)
    ensures
        key_is_der ==> (key matches Ok(k) && k@ == key_file@),
        !key_is_der ==> (match pem_sections(key_file@) {
            None => key == Err::<Vec<u8>, TlsFileError>(TlsFileError::MalformedPem),
            Some(items) => match first_usable_key(items) {
                Some(bytes) => key matches Ok(k) && k@ == bytes,
                None => key == Err::<Vec<u8>, TlsFileError>(TlsFileError::NoValidPemKey),
            },
        }),
{
    if key_is_der {
        return Ok(key_file);
    }
    match read_pem_sections(&key_file) {
        Err(_) => Err(TlsFileError::MalformedPem),
        Ok(items) => {
            let ghost view = sections_view(items@);
            match first_private_key(&items) {
                Some(i) => {
                    proof {
                        lemma_first_usable_key(view, i as int);
                        assert(view.skip(i as int)[0] == view[i as int]);
                    }
                    let mut items = items;
                    let (_, bytes) = items.remove(i);
                    Ok(bytes)
                },
                None => {
                    proof {
                        lemma_first_usable_key(view, view.len() as int);
                    }
                    Err(TlsFileError::NoValidPemKey)
                },
            }
        },
    }
}

/// The DER certificates of the QUIC certificate chain held in a file: the
/// file itself as one certificate where it is DER, else every certificate
/// of the PEM file, in order.
pub fn quic_cert_chain(cert_is_der: bool, cert_file: Vec<u8>) -> (chain: Result<Vec<Vec<u8>>, TlsFileError>)
    ensures
        cert_is_der ==> (chain matches Ok(c) && c@.len() == 1 && c@[0]@ == cert_file@),
        !cert_is_der ==> (match pem_certificates(cert_file@) {
            None => chain == Err::<Vec<Vec<u8>>, TlsFileError>(TlsFileError::MalformedPem),
            Some(certs) => chain matches Ok(c) && c@.map_values(|v: Vec<u8>| v@) == certs,
        }),
{
    if cert_is_der {
        let ghost file = cert_file@;
        let chain = vec![cert_file];
        assert(chain@[0]@ == file);
        return Ok(chain);
    }
    match read_pem_certificates(&cert_file) {
        Err(_) => Err(TlsFileError::MalformedPem),
        Ok(certs) => Ok(certs),
    }
}

} // verus!
