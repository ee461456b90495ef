//! The signing identity of one installation.
use ed25519_dalek::{Signer, Verifier};
use vstd::prelude::*;
use vstd::utf8::encode_utf8;

use crate::ids::{random_shape, DeviceId};
use crate::text::join2;

verus! {

/// The Ed25519 public key of a secret key.
pub uninterp spec fn ed25519_public_key(secret: Seq<u8>) -> Seq<u8>;

/// The Ed25519 signature of a message under a secret key.
pub uninterp spec fn ed25519_signature(secret: Seq<u8>, message: Seq<u8>) -> Seq<u8>;

/// Whether a public key accepts a signature of a message.
pub uninterp spec fn ed25519_accepts(
    public_key: Seq<u8>,
    message: Seq<u8>,
    signature: Seq<u8>,
) -> bool;

/// `SigningKey::generate` with the random numbers of the operating system, and
/// `to_bytes`.  The key is random, so nothing is said of it.
#[verifier::external_body]
fn random_secret_key() -> (r: [u8; 32])
{
    ed25519_dalek::SigningKey::generate(&mut rand_core::OsRng).to_bytes()
}

/// `SigningKey::from_bytes`, `verifying_key` and `to_bytes`: the public key depends
/// on the secret key alone.
#[verifier::external_body]
fn public_key_of(secret: &[u8; 32]) -> (r: [u8; 32])
    ensures
        r@ == ed25519_public_key(secret@),
{
    ed25519_dalek::SigningKey::from_bytes(secret).verifying_key().to_bytes()
}

/// `SigningKey::sign` and `to_bytes`: 64 bytes that depend on key and message alone,
/// and that the public key of the same secret key accepts.
#[verifier::external_body]
fn sign_bytes(secret: &[u8; 32], message: &[u8]) -> (r: Vec<u8>)
    ensures
        r@ == ed25519_signature(secret@, message@),
        r@.len() == 64,
        ed25519_accepts(ed25519_public_key(secret@), message@, r@),
{
    ed25519_dalek::SigningKey::from_bytes(secret).sign(message).to_bytes().to_vec()
}

/// `VerifyingKey::try_from`, `Signature::from_slice` and `Verifier::verify`: the answer
/// depends on the three byte strings alone, and is no for a key that is not 32
/// bytes or a signature that is not 64 bytes long.
#[verifier::external_body]
fn verify_bytes(public_key: &[u8], message: &[u8], signature: &[u8]) -> (r: bool)
    ensures
        r == ed25519_accepts(public_key@, message@, signature@),
        r ==> public_key@.len() == 32 && signature@.len() == 64,
{
    match (
        ed25519_dalek::VerifyingKey::try_from(public_key),
        ed25519_dalek::Signature::from_slice(signature),
    ) {
        (Ok(key), Ok(signature)) => key.verify(message, &signature).is_ok(),
        _ => false,
    }
}

/// What is signed in place of a message: the message behind a text of its own and
/// a zero byte.
pub open spec fn transcript(message: Seq<u8>) -> Seq<u8> {
    encode_utf8("meshelf/installation-signature/v1"@) + seq![0u8] + message
}

fn signing_transcript(message: &[u8]) -> (r: Vec<u8>)
    ensures
        r@ == transcript(message@),
{
    let mut bytes: Vec<u8> = Vec::new();
    bytes.extend_from_slice("meshelf/installation-signature/v1".as_bytes());
    bytes.push(0);
    bytes.extend_from_slice(message);
    assert(bytes@ =~= transcript(message@));
    bytes
}

/// Whether a public key accepts a signature of the transcript of a message.
pub open spec fn verifies(public_key: Seq<u8>, message: Seq<u8>, signature: Seq<u8>) -> bool {
    ed25519_accepts(public_key, transcript(message), signature)
}

/// A secret key, which is handed out only to be stored.
pub struct SecretKey {
    bytes: [u8; 32],
}

impl View for SecretKey {
    type V = Seq<u8>;

    closed spec fn view(&self) -> Seq<u8> {
        self.bytes@
    }
}

/// The identity of one installation: its device and its secret key.
pub struct InstallationIdentity {
    pub device_id: DeviceId,
    pub secret_key: SecretKey,
}

/// An identity as it is kept.
#[derive(Debug)]
pub struct StoredIdentity {
    pub device_id: DeviceId,
    pub secret_key: Vec<u8>,
}

/// Why there is no identity; `S` is the type of its texts.
#[derive(Debug)]
pub enum IdentityError<S = String> {
    Keyring(S),
    Json(S),
    InvalidSecretKey,
}

impl View for IdentityError<String> {
    type V = IdentityError<Seq<char>>;

    open spec fn view(&self) -> IdentityError<Seq<char>> {
        match *self {
            IdentityError::Keyring(s) => IdentityError::Keyring(s@),
            IdentityError::Json(s) => IdentityError::Json(s@),
            IdentityError::InvalidSecretKey => IdentityError::InvalidSecretKey,
        }
    }
}

impl IdentityError<Seq<char>> {
    /// The message shown for the error.
    pub open spec fn message(self) -> Seq<char> {
        match self {
            IdentityError::Keyring(s) => "credential store error: "@ + s,
            IdentityError::Json(s) => "credential store record is not valid JSON: "@ + s,
            IdentityError::InvalidSecretKey =>
                "credential store record does not contain a 32-byte signing key"@,
        }
    }
}

impl IdentityError {
    /// The message shown for the error.
    #[must_use]
    pub fn describe(&self) -> (r: String)
        ensures
            r@ == self@.message(),
    {
        match self {
            IdentityError::Keyring(s) => join2("credential store error: ", s.as_str()),
            IdentityError::Json(s) => join2(
                "credential store record is not valid JSON: ",
                s.as_str(),
            ),
            IdentityError::InvalidSecretKey =>
                "credential store record does not contain a 32-byte signing key".to_owned(),
        }
    }
}

impl Clone for InstallationIdentity {
    fn clone(&self) -> (r: Self)
        ensures
            r.device_id == self.device_id,
            r.secret_key@ == self.secret_key@,
    {
        InstallationIdentity {
            device_id: self.device_id,
            secret_key: SecretKey { bytes: self.secret_key.bytes },
        }
    }
}

impl InstallationIdentity {
    /// A fresh identity.
    #[must_use]
    pub fn generate() -> (r: Self)
        ensures
            random_shape(r.device_id.0),
            r.secret_key@.len() == 32,
    {
        InstallationIdentity {
            device_id: DeviceId::new(),
            secret_key: SecretKey { bytes: random_secret_key() },
        }
    }

    /// The public half of the identity.
    #[must_use]
    pub fn public_key(&self) -> (r: [u8; 32])
        ensures
            r@ == ed25519_public_key(self.secret_key@),
    {
        public_key_of(&self.secret_key.bytes)
    }

    /// Signs a message.  The public key of the identity accepts the signature.
    #[must_use]
    pub fn sign(&self, message: &[u8]) -> (r: Vec<u8>)
        ensures
            r@ == ed25519_signature(self.secret_key@, transcript(message@)),
            r@.len() == 64,
            verifies(ed25519_public_key(self.secret_key@), message@, r@),
    {
        let bytes = signing_transcript(message);
        sign_bytes(&self.secret_key.bytes, bytes.as_slice())
    }

    /// Whether a signature of a message was made with the secret half of a public key.
    #[must_use]
    pub fn verify(public_key: &[u8], message: &[u8], signature: &[u8]) -> (r: bool)
        ensures
            r == verifies(public_key@, message@, signature@),
            r ==> public_key@.len() == 32 && signature@.len() == 64,
    {
        let bytes = signing_transcript(message);
        verify_bytes(public_key, bytes.as_slice(), signature)
    }

    /// The identity as it is kept.
    #[must_use]
    pub fn to_stored(&self) -> (r: StoredIdentity)
        ensures
            r.device_id == self.device_id,
            r.secret_key@ == self.secret_key@,
            r.secret_key@.len() == 32,
    {
        let mut secret_key: Vec<u8> = Vec::new();
        let mut i: usize = 0;
        while i < 32
            invariant
                i <= 32,
                secret_key@ =~= self.secret_key.bytes@.subrange(0, i as int),
            decreases 32 - i,
        {
            secret_key.push(self.secret_key.bytes[i]);
            i = i + 1;
        }
        StoredIdentity { device_id: self.device_id, secret_key }
    }

    /// The identity that was kept; a secret key of another length is refused.
    pub fn from_stored(stored: &StoredIdentity) -> (r: Result<Self, IdentityError>)
        ensures
            r is Ok <==> stored.secret_key@.len() == 32,
            r matches Ok(identity) ==> identity.device_id == stored.device_id && identity.secret_key@
                == stored.secret_key@,
            r matches Err(error) ==> error@ == IdentityError::<Seq<char>>::InvalidSecretKey,
    {
        if stored.secret_key.len() != 32 {
            return Err(IdentityError::InvalidSecretKey);
        }
        let mut secret_key: [u8; 32] = [0; 32];
        let mut i: usize = 0;
        while i < 32
            invariant
                i <= 32,
                stored.secret_key@.len() == 32,
                secret_key@.subrange(0, i as int) =~= stored.secret_key@.subrange(0, i as int),
            decreases 32 - i,
        {
            secret_key[i] = stored.secret_key[i];
            i = i + 1;
        }
        assert(secret_key@ =~= stored.secret_key@) by {
            assert(secret_key@.subrange(0, 32) =~= secret_key@);
            assert(stored.secret_key@.subrange(0, 32) =~= stored.secret_key@);
        }
        Ok(
            InstallationIdentity {
                device_id: stored.device_id,
                secret_key: SecretKey { bytes: secret_key },
            },
        )
    }

    /// The kept identity, or a fresh one together with what is to be kept of it.
    pub fn load_or_create(entry: Option<StoredIdentity>) -> (r: Result<
        (Self, Option<StoredIdentity>),
        IdentityError,
    >)
        ensures
            match entry {
                Some(stored) => {
                    &&& r is Ok <==> stored.secret_key@.len() == 32
                    &&& r matches Ok((identity, kept)) ==> kept is None && identity.device_id
                        == stored.device_id && identity.secret_key@ == stored.secret_key@
                    &&& r matches Err(error) ==> error@ == IdentityError::<
                        Seq<char>,
                    >::InvalidSecretKey
                },
                None => r matches Ok((identity, kept)) && {
                    &&& random_shape(identity.device_id.0)
                    &&& kept matches Some(stored) && stored.device_id == identity.device_id
                        && stored.secret_key@ == identity.secret_key@ && stored.secret_key@.len() == 32
                },
            },
    {
        match entry {
            Some(stored) => match Self::from_stored(&stored) {
                Ok(identity) => Ok((identity, None)),
                Err(error) => Err(error),
            },
            None => {
                let identity = Self::generate();
                let stored = identity.to_stored();
                Ok((identity, Some(stored)))
            },
        }
    }
}

/// Signed messages are told apart by their bytes: different messages have
/// different transcripts.
pub proof fn lemma_transcripts_differ(a: Seq<u8>, b: Seq<u8>)
    requires
        a != b,
    ensures
        transcript(a) != transcript(b),
{
    let head = encode_utf8("meshelf/installation-signature/v1"@) + seq![0u8];
    assert(transcript(a).subrange(head.len() as int, transcript(a).len() as int) =~= a);
    assert(transcript(b).subrange(head.len() as int, transcript(b).len() as int) =~= b);
}

} // verus!
