//! Who may connect: certificates are trusted by their fingerprint alone.
use crate::collections::StrMap;
use crate::crypto::generate_fingerprint;
use crate::{crypto, text};
use vstd::prelude::*;

verus! {

/// What a peer is told whose fingerprint is not authorized.
pub open spec fn client_refused(fp: Seq<char>) -> Seq<char> {
    "client fingerprint "@ + fp + " not authorized"@
}

/// What is reported of a peer with another fingerprint than the expected one.
pub open spec fn server_refused(fp: Seq<char>, expected: Seq<char>) -> Seq<char> {
    "server fingerprint "@ + fp + " does not match expected "@ + expected
}

/// Whether a peer that connects is accepted: only one whose fingerprint is authorized. Nobody is
/// where the authorized fingerprints cannot be read.
pub fn verify_client_fingerprint(fp: &str, authorized: Option<&StrMap>) -> (r: Result<(), String>)
    ensures
        r is Ok <==> authorized is Some && authorized->0@.contains_key(fp@),
        r is Err ==> r->Err_0@ == client_refused(fp@),
{
    let allowed: bool = match authorized {
        Some(m) => m.contains_key(fp),
        None => false,
    };
    if allowed {
        Ok(())
    } else {
        Err(text::concat3("client fingerprint ", fp, " not authorized"))
    }
}

/// Whether a peer with a certificate that connects is accepted.
pub fn verify_client_cert(cert: &[u8], authorized: Option<&StrMap>) -> (r: Result<(), String>)
    ensures
        r is Ok <==> authorized is Some && authorized->0@.contains_key(crypto::fingerprint(cert@)),
        r is Err ==> r->Err_0@ == client_refused(crypto::fingerprint(cert@)),
{
    let fp: String = generate_fingerprint(cert);
    verify_client_fingerprint(fp.as_str(), authorized)
}

/// Whether a peer that was connected to is accepted: only one with the expected fingerprint.
pub fn verify_server_fingerprint(fp: &str, expected: &str) -> (r: Result<(), String>)
    ensures
        r is Ok <==> fp@ == expected@,
        r is Err ==> r->Err_0@ == server_refused(fp@, expected@),
{
    if text::str_eq(fp, expected) {
        Ok(())
    } else {
        let head: String = text::concat3("server fingerprint ", fp, " does not match expected ");
        Err(text::concat2(head.as_str(), expected))
    }
}

/// Whether a peer with a certificate that was connected to is accepted.
pub fn verify_server_cert(cert: &[u8], expected: &str) -> (r: Result<(), String>)
    ensures
        r is Ok <==> crypto::fingerprint(cert@) == expected@,
        r is Err ==> r->Err_0@ == server_refused(crypto::fingerprint(cert@), expected@),
{
    let fp: String = generate_fingerprint(cert);
    verify_server_fingerprint(fp.as_str(), expected)
}

/// The fingerprint of a peer: that of the first certificate it showed; empty where it showed
/// none.
pub fn peer_fingerprint(chain: &Option<Vec<Vec<u8>>>) -> (r: String)
    ensures
        match chain {
            Some(certs) if certs@.len() > 0 => r@ == crypto::fingerprint(certs@[0]@),
            _ => r@.len() == 0,
        },
{
    match chain {
        Some(certs) => {
            if certs.len() > 0 {
                return generate_fingerprint(certs[0].as_slice());
            }
        },
        None => {},
    }
    String::new()
}

/// A peer is authorized by one fingerprint only: two certificates with the same fingerprint have
/// the same digest, so another certificate is accepted in place of an authorized one only where
/// their digests collide.
pub proof fn law_fingerprint_pins_digest(a: Seq<u8>, b: Seq<u8>)
    requires
        crypto::fingerprint(a) == crypto::fingerprint(b),
    ensures
        crypto::sha256(a) == crypto::sha256(b),
{
    crypto::law_fingerprint_injective(crypto::sha256(a), crypto::sha256(b));
}

/// What is told of a peer that is refused names its fingerprint, and the expected one where there is
/// one.
pub proof fn law_refusals_name_fingerprints(fp: Seq<char>, expected: Seq<char>)
    ensures
        ("client fingerprint "@ + fp).is_prefix_of(client_refused(fp)),
        ("server fingerprint "@ + fp).is_prefix_of(server_refused(fp, expected)),
        expected.is_suffix_of(server_refused(fp, expected)),
{
    let a = client_refused(fp);
    let h = "client fingerprint "@ + fp;
    assert(a.subrange(0, h.len() as int) =~= h);
    let b = server_refused(fp, expected);
    let g = "server fingerprint "@ + fp;
    assert(b.subrange(0, g.len() as int) =~= g);
    assert(b.subrange(b.len() - expected.len(), b.len() as int) =~= expected);
}

} // verus!
