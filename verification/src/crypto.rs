//! Certificate fingerprints and the identity kept in a PEM file.
use crate::text;
use vstd::prelude::*;
use webrtc_dtls::crypto::Certificate as DtlsCertificate;
use webrtc_dtls::Error as DtlsError;

verus! {

/// The SHA-256 hash of a byte string.
pub uninterp spec fn sha256(input: Seq<u8>) -> Seq<u8>;

/// `sha2::Sha256::digest`: the SHA-256 hash of the input.
#[verifier::external_body]
pub(crate) fn sha256_digest(input: &[u8]) -> (r: [u8; 32])
    ensures
        r@ == sha256(input@),
{
    <sha2::Sha256 as sha2::Digest>::digest(input).into()
}

/// The hexadecimal byte pairs of a digest.
pub open spec fn hex_pairs(digest: Seq<u8>) -> Seq<Seq<char>> {
    Seq::new(digest.len(), |i: int| text::hex_pair(digest[i]))
}

/// How a digest is written: lower-case byte pairs with colons between them.
pub open spec fn fingerprint_text(digest: Seq<u8>) -> Seq<char> {
    text::join(hex_pairs(digest), ":"@)
}

/// The fingerprint of a DER certificate.
pub open spec fn fingerprint(cert: Seq<u8>) -> Seq<char> {
    fingerprint_text(sha256(cert))
}

/// Writes a digest as a fingerprint.
pub fn format_fingerprint(digest: &[u8]) -> (r: String)
    ensures
        r@ == fingerprint_text(digest@),
{
    let mut pairs: Vec<String> = Vec::new();
    let n: usize = digest.len();
    let mut i: usize = 0;
    while i < n
        invariant
            n == digest@.len(),
            i <= n,
            pairs@.len() == i,
            forall|j: int| 0 <= j < i ==> (#[trigger] pairs@[j])@ == text::hex_pair(digest@[j]),
        decreases n - i,
    {
        pairs.push(text::hex_byte(digest[i]));
        i += 1;
    }
    assert(text::views(pairs@) =~= hex_pairs(digest@));
    text::join_strings(&pairs, ":")
}

/// The SHA-256 fingerprint of a DER certificate.
pub fn generate_fingerprint(cert: &[u8]) -> (r: String)
    ensures
        r@ == fingerprint(cert@),
{
    let digest: [u8; 32] = sha256_digest(cert);
    format_fingerprint(digest.as_slice())
}

/// The fingerprint of the first certificate of a chain.
pub fn certificate_fingerprint(chain: &Vec<Vec<u8>>) -> (r: String)
    requires
        chain@.len() > 0,
    ensures
        r@ == fingerprint(chain@[0]@),
{
    generate_fingerprint(chain[0].as_slice())
}

proof fn lemma_joined_len(parts: Seq<Seq<char>>, sep: Seq<char>, n: nat)
    requires
        forall|i: int| 0 <= i < parts.len() ==> (#[trigger] parts[i]).len() == n,
    ensures
        text::join(parts, sep).len() == if parts.len() == 0 {
            0
        } else {
            parts.len() * n + (parts.len() - 1) * sep.len()
        },
    decreases parts.len(),
{
    if parts.len() > 1 {
        let k = parts.len() as int;
        let l = sep.len() as int;
        lemma_joined_len(parts.drop_last(), sep, n);
        assert((k - 1) * n + (k - 2) * l + l + n == k * n + (k - 1) * l) by (nonlinear_arith);
    } else if parts.len() == 1 {
        assert(1 * n + 0 * sep.len() == n) by (nonlinear_arith);
    }
}

/// The fingerprint of a 32-byte digest has 95 characters.
pub proof fn law_fingerprint_length(digest: Seq<u8>)
    requires
        digest.len() == 32,
    ensures
        fingerprint_text(digest).len() == 95,
{
    reveal_strlit(":");
    lemma_joined_len(hex_pairs(digest), ":"@, 2);
}

/// Two digests with the same fingerprint are equal.
pub proof fn law_fingerprint_injective(a: Seq<u8>, b: Seq<u8>)
    requires
        fingerprint_text(a) == fingerprint_text(b),
    ensures
        a == b,
    decreases a.len(),
{
    reveal_strlit(":");
    let pa = hex_pairs(a);
    let pb = hex_pairs(b);
    lemma_joined_len(pa, ":"@, 2);
    lemma_joined_len(pb, ":"@, 2);
    assert(a.len() == b.len());
    if a.len() == 0 {
        assert(a =~= b);
    } else {
        let fa = fingerprint_text(a);
        let fb = fingerprint_text(b);
        let n = fa.len() as int;
        assert(pa.last() =~= fa.subrange(n - 2, n));
        assert(pb.last() =~= fb.subrange(n - 2, n));
        lemma_hex_pair_injective(a.last(), b.last());
        assert(hex_pairs(a.drop_last()) =~= pa.drop_last());
        assert(hex_pairs(b.drop_last()) =~= pb.drop_last());
        if a.len() > 1 {
            assert(text::join(pa.drop_last(), ":"@) =~= fa.take(n - 3));
            assert(text::join(pb.drop_last(), ":"@) =~= fb.take(n - 3));
        }
        law_fingerprint_injective(a.drop_last(), b.drop_last());
        assert(a =~= a.drop_last().push(a.last()));
        assert(b =~= b.drop_last().push(b.last()));
    }
}

proof fn lemma_hex_pair_injective(a: u8, b: u8)
    requires
        text::hex_pair(a) == text::hex_pair(b),
    ensures
        a == b,
{
    let pa = text::hex_pair(a);
    let pb = text::hex_pair(b);
    assert(pa[0] == pb[0] && pa[1] == pb[1]);
}

// ----- identity -------------------------------------------------------------

/// A private key in DER, with its format.
#[derive(Debug)]
pub enum PrivateKey {
    /// PKCS #1
    Pkcs1(Vec<u8>),
    /// SEC1
    Sec1(Vec<u8>),
    /// PKCS #8
    Pkcs8(Vec<u8>),
}

/// Contents of a [`PrivateKey`].
pub enum PrivateKeyView {
    /// PKCS #1
    Pkcs1(Seq<u8>),
    /// SEC1
    Sec1(Seq<u8>),
    /// PKCS #8
    Pkcs8(Seq<u8>),
}

impl View for PrivateKey {
    type V = PrivateKeyView;

    open spec fn view(&self) -> PrivateKeyView {
        match self {
            PrivateKey::Pkcs1(k) => PrivateKeyView::Pkcs1(k@),
            PrivateKey::Sec1(k) => PrivateKeyView::Sec1(k@),
            PrivateKey::Pkcs8(k) => PrivateKeyView::Pkcs8(k@),
        }
    }
}

/// Why no identity came out of a PEM file.
#[derive(Debug)]
pub enum Error {
    /// A section could not be read.
    Io(std::io::Error),
    /// The file is none that DTLS takes.
    Dtls(DtlsError),
    /// The file holds no certificate.
    NoCertificates,
    /// The file holds no private key.
    NoPrivateKey,
}

impl Error {
    /// The text of an error that the file's contents call for; `None` for an I/O or DTLS error,
    /// which has a text of its own.
    pub fn message(&self) -> (r: Option<&'static str>)
        ensures
            match r {
                Some(t) => match self {
                    Error::Io(_) | Error::Dtls(_) => false,
                    Error::NoCertificates => t@ == "no certificates found in PEM"@,
                    Error::NoPrivateKey => t@ == "no private key found in PEM"@,
                },
                None => self is Io || self is Dtls,
            },
    {
        match self {
            Error::Io(_) | Error::Dtls(_) => None,
            Error::NoCertificates => Some("no certificates found in PEM"),
            Error::NoPrivateKey => Some("no private key found in PEM"),
        }
    }
}

/// The contents of a list of byte strings.
pub open spec fn byte_views(v: Seq<Vec<u8>>) -> Seq<Seq<u8>> {
    Seq::new(v.len(), |i: int| v[i]@)
}

/// The certificates in the sections of a PEM file, in order; `None` where a section cannot be
/// read.
pub uninterp spec fn pem_certs(pem: Seq<u8>) -> Option<Seq<Seq<u8>>>;

/// The first private key in a PEM file, `Some(None)` where it holds none; `None` where a
/// section before the key cannot be read.
pub uninterp spec fn pem_key(pem: Seq<u8>) -> Option<Option<PrivateKeyView>>;

/// `rustls_pemfile::certs`, collected up to the first error: the DER bytes of every certificate
/// section, in order.
#[verifier::external_body]
fn read_certs(pem: &[u8]) -> (r: Result<Vec<Vec<u8>>, std::io::Error>)
    ensures
        match r {
            Ok(v) => pem_certs(pem@) == Some(byte_views(v@)),
            Err(_) => pem_certs(pem@) is None,
        },
{
    let mut rd: &[u8] = pem;
    rustls_pemfile::certs(&mut rd).map(|c| c.map(|der| der.to_vec())).collect()
}

/// `rustls_pemfile::private_key`: the first private key section of any format.
#[verifier::external_body]
fn read_key(pem: &[u8]) -> (r: Result<Option<PrivateKey>, std::io::Error>)
    ensures
        match r {
            Ok(Some(k)) => pem_key(pem@) == Some(Some(k@)),
            Ok(None) => pem_key(pem@) == Some(None::<PrivateKeyView>),
            Err(_) => pem_key(pem@) is None,
        },
{
    let mut rd: &[u8] = pem;
    rustls_pemfile::private_key(&mut rd).map(|k| k.map(|k| match k {
        rustls::pki_types::PrivateKeyDer::Pkcs1(k) => PrivateKey::Pkcs1(k.secret_pkcs1_der().to_vec()),
        rustls::pki_types::PrivateKeyDer::Sec1(k) => PrivateKey::Sec1(k.secret_sec1_der().to_vec()),
        other => PrivateKey::Pkcs8(other.secret_der().to_vec()),
    }))
}

/// A certificate chain with its private key.
#[derive(Debug)]
pub struct Identity {
    /// Certificates in DER, leaf first.
    pub certs: Vec<Vec<u8>>,
    /// Key of the leaf certificate.
    pub key: PrivateKey,
}

/// The identity that certificates and a key make: at least one certificate and the key are
/// needed, and a missing certificate is reported first.
pub fn identity_of(certs: Vec<Vec<u8>>, key: Option<PrivateKey>) -> (r: Result<Identity, Error>)
    ensures
        match r {
            Ok(id) => certs@.len() > 0 && id.certs@ == certs@ && key == Some(id.key),
            Err(Error::NoCertificates) => certs@.len() == 0,
            Err(Error::NoPrivateKey) => certs@.len() > 0 && key is None,
            Err(_) => false,
        },
{
    if certs.len() == 0 {
        return Err(Error::NoCertificates);
    }
    match key {
        Some(key) => Ok(Identity { certs, key }),
        None => Err(Error::NoPrivateKey),
    }
}

/// Whether an underscore stands between the words of the label that DTLS gives a private key.
pub open spec fn joins_key_label(pem: Seq<u8>, i: int) -> bool {
    &&& 7 <= i < pem.len() - 3
    &&& pem[i] == 0x5f
    &&& pem.subrange(i - 7, i) == seq![0x50u8, 0x52, 0x49, 0x56, 0x41, 0x54, 0x45]
    &&& pem.subrange(i + 1, i + 4) == seq![0x4bu8, 0x45, 0x59]
}

/// A PEM file with the label `PRIVATE_KEY`, under which DTLS keeps its key, written as the
/// standard label `PRIVATE KEY`.
pub open spec fn relabelled(pem: Seq<u8>) -> Seq<u8> {
    Seq::new(
        pem.len(),
        |i: int|
            if joins_key_label(pem, i) {
                0x20u8
            } else {
                pem[i]
            },
    )
}

fn is_key_label(pem: &[u8], i: usize) -> (r: bool)
    requires
        i < pem@.len(),
    ensures
        r == joins_key_label(pem@, i as int),
{
    if i < 7 || pem.len() - i <= 3 || pem[i] != 0x5f {
        return false;
    }
    let before: bool = pem[i - 7] == 0x50 && pem[i - 6] == 0x52 && pem[i - 5] == 0x49 && pem[i - 4]
        == 0x56 && pem[i - 3] == 0x41 && pem[i - 2] == 0x54 && pem[i - 1] == 0x45;
    let behind: bool = pem[i + 1] == 0x4b && pem[i + 2] == 0x45 && pem[i + 3] == 0x59;
    proof {
        let private = seq![0x50u8, 0x52, 0x49, 0x56, 0x41, 0x54, 0x45];
        let key = seq![0x4bu8, 0x45, 0x59];
        let a = pem@.subrange(i - 7, i as int);
        let b = pem@.subrange(i + 1, i + 4);
        assert(forall|k: int| 0 <= k < 7 ==> #[trigger] a[k] == pem@[i - 7 + k]);
        assert(forall|k: int| 0 <= k < 3 ==> #[trigger] b[k] == pem@[i + 1 + k]);
        if before {
            assert(a =~= private);
        }
        if behind {
            assert(b =~= key);
        }
        if a == private {
            assert(a[0] == 0x50 && a[1] == 0x52 && a[2] == 0x49 && a[3] == 0x56 && a[4] == 0x41
                && a[5] == 0x54 && a[6] == 0x45);
        }
        if b == key {
            assert(b[0] == 0x4b && b[1] == 0x45 && b[2] == 0x59);
        }
    }
    before && behind
}

/// The file with the label of the private key in its standard form.
pub fn relabel_key(pem: &[u8]) -> (r: Vec<u8>)
    ensures
        r@ == relabelled(pem@),
{
    let mut r: Vec<u8> = Vec::new();
    let n: usize = pem.len();
    let mut i: usize = 0;
    while i < n
        invariant
            n == pem@.len(),
            i <= n,
            r@ == relabelled(pem@).take(i as int),
        decreases n - i,
    {
        r.push(
            if is_key_label(pem, i) {
                0x20
            } else {
                pem[i]
            },
        );
        i += 1;
        assert(r@ =~= relabelled(pem@).take(i as int));
    }
    assert(r@ =~= relabelled(pem@));
    r
}

/// Reads the identity in a PEM file, which may be the one that DTLS keeps: all its certificates
/// and its first private key.
pub fn load_rustls_cert_and_key(pem: &[u8]) -> (r: Result<Identity, Error>)
    ensures
        match r {
            Ok(id) => {
                &&& pem_certs(pem@) == Some(byte_views(id.certs@))
                &&& id.certs@.len() > 0
                &&& pem_key(relabelled(pem@)) == Some(Some(id.key@))
            },
            Err(Error::NoCertificates) => pem_certs(pem@) == Some(Seq::<Seq<u8>>::empty()),
            Err(Error::NoPrivateKey) => {
                &&& pem_certs(pem@) is Some
                &&& pem_certs(pem@)->0.len() > 0
                &&& pem_key(relabelled(pem@)) == Some(None::<PrivateKeyView>)
            },
            Err(Error::Io(_)) => {
                ||| pem_certs(pem@) is None
                ||| pem_certs(pem@)->0.len() > 0 && pem_key(relabelled(pem@)) is None
            },
            Err(Error::Dtls(_)) => false,
        },
{
    let certs: Vec<Vec<u8>> = match read_certs(pem) {
        Ok(certs) => certs,
        Err(e) => return Err(Error::Io(e)),
    };
    if certs.len() == 0 {
        assert(byte_views(certs@) =~= Seq::<Seq<u8>>::empty());
        return Err(Error::NoCertificates);
    }
    let labelled: Vec<u8> = relabel_key(pem);
    match read_key(labelled.as_slice()) {
        Ok(key) => identity_of(certs, key),
        Err(e) => Err(Error::Io(e)),
    }
}

/// The certificates and the private key of a DTLS endpoint.
#[verifier::external_type_specification]
#[verifier::external_body]
pub struct ExDtlsCertificate(DtlsCertificate);

/// The errors of DTLS.
#[verifier::external_type_specification]
#[verifier::external_body]
pub struct ExDtlsError(DtlsError);

/// The certificates in a PEM file that DTLS takes, in order.
pub uninterp spec fn dtls_chain(pem: Seq<char>) -> Seq<Seq<u8>>;

/// The certificates that an identity of DTLS presents, in order: its field `certificate`.
pub uninterp spec fn identity_chain(c: DtlsCertificate) -> Seq<Seq<u8>>;

/// `webrtc_dtls::crypto::Certificate::from_pem`: the identity in a PEM file, which presents the
/// certificates of the file, with the DER bytes of these; there is at least one. Which files are
/// refused is left open: an ECDSA key is loaded with the help of the system's random source.
#[verifier::external_body]
fn certificate_from_pem(pem: &str) -> (r: Result<
    (DtlsCertificate, Vec<Vec<u8>>),
    DtlsError,
>)
    ensures
        r matches Ok((cert, chain)) ==> chain@.len() > 0 && byte_views(chain@) == dtls_chain(pem@)
            && identity_chain(cert) == dtls_chain(pem@),
{
    let cert = DtlsCertificate::from_pem(pem)?;
    let chain = cert.certificate.iter().map(|c| c.to_vec()).collect();
    Ok((cert, chain))
}

/// Reads the identity of this device in a PEM file, with the fingerprint by which peers know it:
/// that of the first certificate.
pub fn load_certificate(pem: &str) -> (r: Result<(DtlsCertificate, String), Error>)
    ensures
        match r {
            Ok((cert, fp)) => identity_chain(cert) == dtls_chain(pem@) && fp@ == fingerprint(
                dtls_chain(pem@)[0],
            ),
            Err(e) => e is Dtls,
        },
{
    match certificate_from_pem(pem) {
        Ok((cert, chain)) => {
            let fp: String = certificate_fingerprint(&chain);
            assert(byte_views(chain@)[0] == chain@[0]@);
            Ok((cert, fp))
        },
        Err(e) => Err(Error::Dtls(e)),
    }
}

/// Where the identity comes from at start.
#[derive(Clone, Copy, PartialEq, Eq, Structural, Debug)]
pub enum IdentitySource {
    /// Load the PEM file that is there.
    Load,
    /// Generate a new identity and write the file.
    Generate,
}

/// Decides between loading and generating: only an existing regular file is loaded.
pub fn load_or_generate_key_and_cert(exists: bool, is_file: bool) -> (r: IdentitySource)
    ensures
        r == (if exists && is_file {
            IdentitySource::Load
        } else {
            IdentitySource::Generate
        }),
{
    if exists && is_file {
        IdentitySource::Load
    } else {
        IdentitySource::Generate
    }
}

/// A fingerprint is written byte by byte: each byte more adds a colon and its two digits.
pub proof fn law_fingerprint_grows(digest: Seq<u8>, b: u8)
    ensures
        fingerprint_text(seq![b]) == text::hex_pair(b),
        digest.len() > 0 ==> fingerprint_text(digest.push(b)) == fingerprint_text(digest).push(':')
            + text::hex_pair(b),
{
    reveal_strlit(":");
    assert(hex_pairs(seq![b]) =~= seq![text::hex_pair(b)]);
    let p = hex_pairs(digest.push(b));
    assert(p =~= hex_pairs(digest).push(text::hex_pair(b)));
    assert(p.drop_last() =~= hex_pairs(digest));
    assert(fingerprint_text(digest) + ":"@ =~= fingerprint_text(digest).push(':'));
}

/// Relabelling changes nothing of a PEM file but the underscore in `PRIVATE_KEY`, which becomes a
/// space wherever it stands.
pub proof fn law_relabelled(pem: Seq<u8>, i: int)
    requires
        0 <= i < pem.len(),
    ensures
        relabelled(pem).len() == pem.len(),
        ({
            let label = seq![
                0x50u8,
                0x52,
                0x49,
                0x56,
                0x41,
                0x54,
                0x45,
                0x5f,
                0x4b,
                0x45,
                0x59,
            ];
            relabelled(pem)[i] == if 7 <= i < pem.len() - 3 && pem.subrange(i - 7, i + 4) == label {
                0x20u8
            } else {
                pem[i]
            }
        }),
{
    let label = seq![0x50u8, 0x52, 0x49, 0x56, 0x41, 0x54, 0x45, 0x5f, 0x4b, 0x45, 0x59];
    if 7 <= i < pem.len() - 3 {
        let w = pem.subrange(i - 7, i + 4);
        assert(w.subrange(0, 7) =~= pem.subrange(i - 7, i));
        assert(w[7] == pem[i]);
        assert(w.subrange(8, 11) =~= pem.subrange(i + 1, i + 4));
        let a = seq![0x50u8, 0x52, 0x49, 0x56, 0x41, 0x54, 0x45];
        let c = seq![0x4bu8, 0x45, 0x59];
        assert(label.subrange(0, 7) =~= a);
        assert(label.subrange(8, 11) =~= c);
        if joins_key_label(pem, i) {
            assert(w =~= a + seq![0x5fu8] + c) by {
                assert forall|k: int| 0 <= k < 11 implies w[k] == (a + seq![0x5fu8] + c)[k] by {
                    if k < 7 {
                        assert(pem.subrange(i - 7, i)[k] == a[k]);
                    } else if k > 7 {
                        assert(pem.subrange(i + 1, i + 4)[k - 8] == c[k - 8]);
                    }
                }
            }
            assert(a + seq![0x5fu8] + c =~= label);
        }
    }
}

} // verus!
