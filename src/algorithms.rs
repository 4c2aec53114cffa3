//! The three algorithm families of a signature: canonicalization, digest and
//! signature. Each variant has a fixed wire identifier and a transform.
use vstd::prelude::*;

verus! {

#[verifier::external_type_specification]
#[verifier::external_body]
pub struct ExRsaPrivateKey(rsa::RsaPrivateKey);

/// Relies on the derived `Clone` of `rsa::RsaPrivateKey`, which copies every
/// component of the key: the copy is the same key.
pub assume_specification[ <rsa::RsaPrivateKey as Clone>::clone ](k: &rsa::RsaPrivateKey) -> (r: rsa::RsaPrivateKey)
    ensures
        r == *k,
;

/// What `sha1::Sha1::digest` returns for a byte string.
pub uninterp spec fn sha1_of(b: Seq<u8>) -> Seq<u8>;

/// What `base64ct::Base64::encode_string` returns for a byte string.
pub uninterp spec fn base64_of(b: Seq<u8>) -> Seq<char>;

/// Relies on `sha1::Sha1::digest` (through `digest::Digest`): the SHA-1 hash
/// of the bytes, always 20 bytes long.
#[verifier::external_body]
fn sha1_digest(data: &[u8]) -> (r: Vec<u8>)
    ensures
        r@ == sha1_of(data@),
        r@.len() == 20,
{
    <sha1::Sha1 as sha1::Digest>::digest(data).to_vec()
}

/// Relies on `base64ct::Base64::encode_string`: standard padded Base64 of the
/// bytes, four characters for each three bytes or part of them. It panics above `usize::MAX / 4` bytes of input.
#[verifier::external_body]
fn base64_encode(data: &[u8]) -> (r: String)
    requires
        data@.len() <= usize::MAX / 4,
    ensures
        r@ == base64_of(data@),
        r@.len() == 4 * ((data@.len() + 2) / 3),
{
    <base64ct::Base64 as base64ct::Encoding>::encode_string(data)
}

/// What `rsa::pkcs1v15::SigningKey::<sha1::Sha1>` signs a message to under a
/// key: RSASSA-PKCS1-v1_5 with SHA-1, computed without blinding.
pub uninterp spec fn rsa_sha1_of(key: rsa::RsaPrivateKey, msg: Seq<u8>) -> Seq<u8>;

/// The key can sign the message (it fails on a key too short for the
/// padded SHA-1 digest).
pub uninterp spec fn rsa_sha1_signs(key: rsa::RsaPrivateKey, msg: Seq<u8>) -> bool;

/// Relies on `rsa::pkcs1v15::SigningKey::<sha1::Sha1>` and its
/// `signature::Signer::try_sign`: an RSASSA-PKCS1-v1_5 signature with SHA-1,
/// or `None` where the key cannot sign. Both depend on the key and the
/// message alone.
#[verifier::external_body]
fn rsa_sha1_sign(key: &rsa::RsaPrivateKey, msg: &[u8]) -> (r: Option<Vec<u8>>)
    ensures
        (r is Some) == rsa_sha1_signs(*key, msg@),
        r matches Some(s) ==> s@ == rsa_sha1_of(*key, msg@),
{
    let signing_key = rsa::pkcs1v15::SigningKey::<sha1::Sha1>::new(key.clone());
    match rsa::signature::Signer::try_sign(&signing_key, msg) {
        Ok(sig) => Some(rsa::signature::SignatureEncoding::to_vec(&sig)),
        Err(_) => None,
    }
}

/// How a payload is rewritten before it is digested.
#[derive(Clone, Copy, Debug, PartialEq, Eq, Structural)]
pub enum CanonicalizationAlgorithm {
    /// Declared as Exclusive XML Canonicalization; the transform passes the
    /// payload through unchanged.
    ExclusiveXMLCanonicalization,
    /// A pass-through with its own identifier, for tests.
    NoOp,
}

impl CanonicalizationAlgorithm {
    /// The wire identifier of the algorithm.
    pub open spec fn identifier(&self) -> Seq<char> {
        match self {
            CanonicalizationAlgorithm::ExclusiveXMLCanonicalization => "http://www.w3.org/2001/10/xml-exc-c14n#"@,
            CanonicalizationAlgorithm::NoOp => "noop-c14n"@,
        }
    }

    /// The transform of the algorithm.
    pub open spec fn canonical(&self, payload: Seq<char>) -> Seq<char> {
        payload
    }

    pub fn as_str(&self) -> (r: &'static str)
        ensures
            r@ == self.identifier(),
    {
        match self {
            CanonicalizationAlgorithm::ExclusiveXMLCanonicalization => "http://www.w3.org/2001/10/xml-exc-c14n#",
            CanonicalizationAlgorithm::NoOp => "noop-c14n",
        }
    }

    pub fn run(&self, payload: String) -> (r: String)
        ensures
            r@ == self.canonical(payload@),
    {
        match self {
            CanonicalizationAlgorithm::ExclusiveXMLCanonicalization => payload,
            CanonicalizationAlgorithm::NoOp => payload,
        }
    }
}

/// How the signature block is signed.
pub enum SignatureAlgorithm {
    /// RSASSA-PKCS1-v1_5 with SHA-1 under the key, Base64-encoded.
    RsaSha1(rsa::RsaPrivateKey),
    /// Returns the given text whatever is signed, for tests.
    Echo(String),
}

impl Clone for SignatureAlgorithm {
    fn clone(&self) -> (r: Self)
        ensures
            r == *self,
    {
        match self {
            SignatureAlgorithm::RsaSha1(k) => SignatureAlgorithm::RsaSha1(k.clone()),
            SignatureAlgorithm::Echo(s) => SignatureAlgorithm::Echo(s.clone()),
        }
    }
}

/// The signature algorithm could not sign (the key is unfit for it).
#[derive(Clone, Copy, Debug, PartialEq, Eq, Structural)]
pub enum SigningError {
    KeyRejected,
}

impl SignatureAlgorithm {
    pub open spec fn identifier(&self) -> Seq<char> {
        match self {
            SignatureAlgorithm::RsaSha1(_) => "http://www.w3.org/2000/09/xmldsig#rsa-sha1"@,
            SignatureAlgorithm::Echo(_) => "echo-signature"@,
        }
    }

    /// The algorithm can sign the payload: an echo always, a key where it
    /// signs the UTF-8 bytes and the signature can be Base64-encoded.
    pub open spec fn can_sign(&self, payload: Seq<char>) -> bool {
        match self {
            SignatureAlgorithm::RsaSha1(k) => rsa_sha1_signs(*k, vstd::utf8::encode_utf8(payload))
                && rsa_sha1_of(*k, vstd::utf8::encode_utf8(payload)).len() <= usize::MAX / 4,
            SignatureAlgorithm::Echo(_) => true,
        }
    }

    /// The signature of a payload: the fixed text of an echo, the Base64 text
    /// of the signature of the UTF-8 bytes under a key.
    pub open spec fn signature_of(&self, payload: Seq<char>) -> Seq<char> {
        match self {
            SignatureAlgorithm::RsaSha1(k) => base64_of(
                rsa_sha1_of(*k, vstd::utf8::encode_utf8(payload)),
            ),
            SignatureAlgorithm::Echo(s) => s@,
        }
    }

    pub fn as_str(&self) -> (r: &'static str)
        ensures
            r@ == self.identifier(),
    {
        match self {
            SignatureAlgorithm::RsaSha1(_) => "http://www.w3.org/2000/09/xmldsig#rsa-sha1",
            SignatureAlgorithm::Echo(_) => "echo-signature",
        }
    }

    /// Signs the UTF-8 bytes of the payload. Only a key can refuse.
    pub fn run(&self, payload: String) -> (r: Result<String, SigningError>)
        ensures
            (r is Ok) == self.can_sign(payload@),
            r matches Ok(v) ==> v@ == self.signature_of(payload@),
    {
        match self {
            SignatureAlgorithm::RsaSha1(key) => {
                match rsa_sha1_sign(key, payload.as_str().as_bytes()) {
                    Some(sig) => {
                        if sig.len() > usize::MAX / 4 {
                            Err(SigningError::KeyRejected)
                        } else {
                            let v = base64_encode(sig.as_slice());
                            Ok(v)
                        }
                    },
                    None => Err(SigningError::KeyRejected),
                }
            },
            SignatureAlgorithm::Echo(s) => Ok(s.clone()),
        }
    }
}

/// How the canonical payload is digested.
pub enum DigestAlgorithm {
    /// SHA-1 of the UTF-8 bytes, Base64-encoded.
    Sha1,
    /// Returns the given text whatever is digested, for tests.
    Echo(String),
}

impl Clone for DigestAlgorithm {
    fn clone(&self) -> (r: Self)
        ensures
            r == *self,
    {
        match self {
            DigestAlgorithm::Sha1 => DigestAlgorithm::Sha1,
            DigestAlgorithm::Echo(s) => DigestAlgorithm::Echo(s.clone()),
        }
    }
}

impl DigestAlgorithm {
    pub open spec fn identifier(&self) -> Seq<char> {
        match self {
            DigestAlgorithm::Sha1 => "http://www.w3.org/2000/09/xmldsig#sha1"@,
            DigestAlgorithm::Echo(_) => "echo-digest"@,
        }
    }

    /// The digest of a payload: a function of the algorithm and the payload.
    pub open spec fn digest_of(&self, payload: Seq<char>) -> Seq<char> {
        match self {
            DigestAlgorithm::Sha1 => base64_of(sha1_of(vstd::utf8::encode_utf8(payload))),
            DigestAlgorithm::Echo(s) => s@,
        }
    }

    pub fn as_str(&self) -> (r: &'static str)
        ensures
            r@ == self.identifier(),
    {
        match self {
            DigestAlgorithm::Sha1 => "http://www.w3.org/2000/09/xmldsig#sha1",
            DigestAlgorithm::Echo(_) => "echo-digest",
        }
    }

    pub fn run(&self, payload: String) -> (r: String)
        ensures
            r@ == self.digest_of(payload@),
    {
        match self {
            DigestAlgorithm::Sha1 => {
                let h = sha1_digest(payload.as_str().as_bytes());
                base64_encode(h.as_slice())
            },
            DigestAlgorithm::Echo(s) => s.clone(),
        }
    }
}

/// Digesting is deterministic: equal payloads under one algorithm have equal
/// digests.
pub proof fn digest_is_deterministic(alg: DigestAlgorithm, p: Seq<char>, q: Seq<char>)
    requires
        p == q,
    ensures
        alg.digest_of(p) == alg.digest_of(q),
{
}

} // verus!
