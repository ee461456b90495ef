use ed25519_dalek::{Signer, SigningKey};
use meshelf::bootstrap::ANDROID_ABI_VERSION;
use meshelf::identity::{IdentityError, InstallationIdentity, StoredIdentity};
use meshelf::ids::DeviceId;

#[test]
fn abi_version_is_exactly_one() {
    assert_eq!(ANDROID_ABI_VERSION, 1);
}

#[test]
fn generated_identity_signs_and_rejects_mutations() {
    let identity = InstallationIdentity::generate();
    let message = b"pairing transcript";
    let signature = identity.sign(message);
    assert!(InstallationIdentity::verify(
        &identity.public_key(),
        message,
        &signature
    ));
    assert!(!InstallationIdentity::verify(
        &identity.public_key(),
        b"mutated transcript",
        &signature
    ));
}

#[test]
fn stored_identity_round_trip_keeps_device_and_key() {
    let identity = InstallationIdentity::generate();
    let stored = identity.to_stored();
    let reopened = InstallationIdentity::from_stored(&stored).expect("deserialize");
    assert_eq!(reopened.device_id, identity.device_id);
    assert_eq!(reopened.public_key(), identity.public_key());
}

#[test]
fn a_known_key_gives_the_known_public_key_and_signature() {
    let secret: Vec<u8> = vec![
        0x9d, 0x61, 0xb1, 0x9d, 0xef, 0xfd, 0x5a, 0x60, 0xba, 0x84, 0x4a, 0xf4, 0x92, 0xec, 0x2c,
        0xc4, 0x44, 0x49, 0xc5, 0x69, 0x7b, 0x32, 0x69, 0x19, 0x70, 0x3b, 0xac, 0x03, 0x1c, 0xae,
        0x7f, 0x60,
    ];
    let stored = StoredIdentity { device_id: DeviceId::from_uuid(7), secret_key: secret };
    let identity = InstallationIdentity::from_stored(&stored).expect("identity");
    let public: [u8; 32] = [
        0xd7, 0x5a, 0x98, 0x01, 0x82, 0xb1, 0x0a, 0xb7, 0xd5, 0x4b, 0xfe, 0xd3, 0xc9, 0x64, 0x07,
        0x3a, 0x0e, 0xe1, 0x72, 0xf3, 0xda, 0xa6, 0x23, 0x25, 0xaf, 0x02, 0x1a, 0x68, 0xf7, 0x07,
        0x51, 0x1a,
    ];
    assert_eq!(identity.public_key(), public);
    let signature = identity.sign(b"message");
    let key = SigningKey::from_bytes(&stored.secret_key.as_slice().try_into().expect("32 bytes"));
    let expected = key.sign(b"meshelf/installation-signature/v1\0message");
    assert_eq!(signature, expected.to_bytes());
    assert!(InstallationIdentity::verify(&public, b"message", &signature));
}

#[test]
fn verification_needs_a_key_and_a_signature_of_the_right_length() {
    let identity = InstallationIdentity::generate();
    let signature = identity.sign(b"m");
    let key = identity.public_key();
    assert!(!InstallationIdentity::verify(&key[..31], b"m", &signature));
    assert!(!InstallationIdentity::verify(&key, b"m", &signature[..63]));
    assert!(!InstallationIdentity::verify(&[], b"m", &signature));
    assert!(!InstallationIdentity::verify(&InstallationIdentity::generate().public_key(), b"m", &signature));
}

#[test]
fn a_stored_key_of_the_wrong_length_is_refused() {
    let stored = StoredIdentity { device_id: DeviceId::from_uuid(7), secret_key: vec![1; 31] };
    assert!(matches!(
        InstallationIdentity::from_stored(&stored),
        Err(IdentityError::InvalidSecretKey)
    ));
}

#[test]
fn an_identity_is_created_once_and_then_loaded() {
    let (created, to_store) = InstallationIdentity::load_or_create(None).expect("created");
    let stored = to_store.expect("to store");
    assert_eq!(stored.device_id, created.device_id);
    let (loaded, again) = InstallationIdentity::load_or_create(Some(stored)).expect("loaded");
    assert!(again.is_none());
    assert_eq!(loaded.device_id, created.device_id);
    assert_eq!(loaded.public_key(), created.public_key());
    let broken = StoredIdentity { device_id: DeviceId::from_uuid(7), secret_key: vec![] };
    assert!(InstallationIdentity::load_or_create(Some(broken)).is_err());
}
