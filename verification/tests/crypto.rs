use ramz::argon2_kdf::{derive_key, generate_salt};
use ramz::container::{Container, KeyMaterial};
use ramz::container_open::open_container;
use ramz::container_seal::{seal_container, ContainerMode};
use ramz::error::RamzError;
use ramz::identity::{parse_recipient_file, Identity, PROTECTION_NONE};
use ramz::mlkem_hybrid::{combine_secrets, decapsulate, encapsulate, generate_keypair};

fn backend_message(r: Result<Vec<u8>, RamzError>) -> String {
    match r {
        Err(RamzError::Backend(m)) => m,
        Err(e) => panic!("not a backend error: {}", e.message()),
        Ok(_) => panic!("unexpected success"),
    }
}

#[test]
fn test_generate_salt_unique() {
    let s1 = generate_salt();
    let s2 = generate_salt();
    assert_ne!(s1, s2);
}

#[test]
fn test_derive_key_deterministic() {
    let salt = generate_salt();
    let k1 = derive_key("password", &salt, 65536, 3, 4).unwrap();
    let k2 = derive_key("password", &salt, 65536, 3, 4).unwrap();
    assert_eq!(k1.as_slice(), k2.as_slice());
}

#[test]
fn test_derive_key_different_passwords() {
    let salt = generate_salt();
    let k1 = derive_key("password1", &salt, 65536, 3, 4).unwrap();
    let k2 = derive_key("password2", &salt, 65536, 3, 4).unwrap();
    assert_ne!(k1.as_slice(), k2.as_slice());
}

#[test]
fn test_derive_key_different_salts() {
    let s1 = generate_salt();
    let s2 = generate_salt();
    let k1 = derive_key("password", &s1, 65536, 3, 4).unwrap();
    let k2 = derive_key("password", &s2, 65536, 3, 4).unwrap();
    assert_ne!(k1.as_slice(), k2.as_slice());
}

#[test]
fn derive_key_known_answer_and_refusals() {
    let salt = [7u8; 16];
    let k = derive_key("password", &salt, 8, 1, 1).unwrap();
    assert_eq!(k.len(), 32);
    let again = derive_key("password", &salt, 8, 1, 1).unwrap();
    assert_eq!(k, again);
    let too_little = derive_key("password", &salt, 7, 1, 1);
    assert!(matches!(too_little, Err(RamzError::Backend(m)) if m.starts_with("argon2 params: ")));
    let overflowing = derive_key("password", &salt, 65536, 3, 0x2000_0000);
    assert!(matches!(overflowing, Err(RamzError::Backend(m)) if m == "argon2 params: memory cost is too small"));
}

#[test]
fn test_ml_kem_roundtrip() {
    let keypair = generate_keypair();
    let (ciphertext, shared_secret_enc) = encapsulate(&keypair.public_key).unwrap();
    let shared_secret_dec = decapsulate(&keypair.secret_key, &ciphertext).unwrap();
    assert_eq!(shared_secret_enc, shared_secret_dec);
}

#[test]
fn test_combine_secrets_deterministic() {
    let s1 = [1u8; 32];
    let s2 = [2u8; 32];
    let c1 = combine_secrets(&s1, &s2);
    let c2 = combine_secrets(&s1, &s2);
    assert_eq!(c1, c2);
}

#[test]
fn test_different_inputs_different_combined() {
    let s1 = [1u8; 32];
    let s2 = [2u8; 32];
    let s3 = [3u8; 32];
    let c1 = combine_secrets(&s1, &s2);
    let c2 = combine_secrets(&s1, &s3);
    assert_ne!(c1, c2);
}

#[test]
fn combine_secrets_is_sha256_of_the_concatenation() {
    let c = combine_secrets(b"abc", b"");
    let hex: String = c.iter().map(|b| format!("{:02x}", b)).collect();
    assert_eq!(hex, "ba7816bf8f01cfea414140de5dae2223b00361a396177a9cb410ff61f20015ad");
}

#[test]
fn test_keypair_sizes() {
    let kp = generate_keypair();
    assert_eq!(kp.public_key.len(), 1184);
    assert_eq!(kp.secret_key.len(), 64);
}

#[test]
fn test_encapsulate_output_sizes() {
    let kp = generate_keypair();
    let (ct, ss) = encapsulate(&kp.public_key).unwrap();
    assert_eq!(ct.len(), 1088);
    assert_eq!(ss.len(), 32);
}

#[test]
fn encapsulate_and_decapsulate_refuse_bad_lengths() {
    assert_eq!(encapsulate(&[0u8; 10]).unwrap_err(), "invalid public key length");
    assert_eq!(encapsulate(&[0xffu8; 1184]).unwrap_err(), "invalid public key");
    let kp = generate_keypair();
    assert!(decapsulate(&kp.secret_key[..10], &[0u8; 1088]).is_err());
    assert!(decapsulate(&kp.secret_key, &[0u8; 10]).is_err());
}

/// The contents of the public and secret identity files.
struct SavedIdentity {
    public: Vec<u8>,
    secret: Vec<u8>,
}

fn save(identity: &Identity, password: Option<&str>) -> SavedIdentity {
    SavedIdentity { public: identity.public_file_bytes(), secret: identity.secret_file_bytes(password).unwrap() }
}

fn load(saved: &SavedIdentity, password: &str) -> Result<Identity, RamzError> {
    Identity::load_with_password(&saved.public, &saved.secret, password)
}

#[test]
fn test_identity_generate_save_load_no_password() {
    let identity = Identity::generate();
    let saved = save(&identity, None);
    let loaded = load(&saved, "").unwrap();
    assert_eq!(loaded.encapsulation_key, identity.encapsulation_key);
    assert_eq!(loaded.decapsulation_key.as_slice(), identity.decapsulation_key.as_slice());
}

#[test]
fn test_identity_generate_save_load_with_password() {
    let identity = Identity::generate();
    let saved = save(&identity, Some("mypassword"));
    let loaded = load(&saved, "mypassword").unwrap();
    assert_eq!(loaded.encapsulation_key, identity.encapsulation_key);
    assert_eq!(loaded.decapsulation_key.as_slice(), identity.decapsulation_key.as_slice());
}

#[test]
fn test_identity_wrong_password() {
    let identity = Identity::generate();
    let saved = save(&identity, Some("correct"));
    let result = load(&saved, "wrong");
    assert!(result.is_err());
}

#[test]
fn test_identity_no_password_file_has_no_embedded_key() {
    let identity = Identity::generate();
    let raw = identity.secret_file_bytes(None).unwrap();
    assert_eq!(&raw[0..7], b"RIM1SEC");
    assert_eq!(raw[7], PROTECTION_NONE);
    let dk_len = u32::from_le_bytes(raw[8..12].try_into().unwrap()) as usize;
    assert_eq!(dk_len, identity.decapsulation_key.len());
    assert_eq!(&raw[12..12 + dk_len], identity.decapsulation_key.as_slice());
    assert_eq!(raw.len(), 12 + dk_len);
}

#[test]
fn test_identity_encapsulation_decapsulation() {
    let identity = Identity::generate();
    let (ct, ss1) = encapsulate(&identity.encapsulation_key).unwrap();
    let ss2 = decapsulate(identity.decapsulation_key.as_slice(), &ct).unwrap();
    assert_eq!(ss1, ss2);
}

#[test]
fn test_identity_generate_save_load_roundtrip() {
    let identity = Identity::generate();
    let saved = save(&identity, None);
    assert!(saved.public.starts_with(b"RIM1PUB"));
    assert!(saved.secret.starts_with(b"RIM1SEC"));
    let loaded = load(&saved, "").unwrap();
    assert_eq!(loaded.encapsulation_key, identity.encapsulation_key);
    assert_eq!(loaded.decapsulation_key.as_slice(), identity.decapsulation_key.as_slice());
}

#[test]
fn test_identity_password_protected_roundtrip() {
    let identity = Identity::generate();
    let saved = save(&identity, Some("my-secret-password"));
    let loaded = load(&saved, "my-secret-password").unwrap();
    assert_eq!(loaded.encapsulation_key, identity.encapsulation_key);
    assert_eq!(loaded.decapsulation_key.as_slice(), identity.decapsulation_key.as_slice());
}

#[test]
fn test_identity_wrong_password_fails() {
    let identity = Identity::generate();
    let saved = save(&identity, Some("correct-password"));
    let result = load(&saved, "wrong-password");
    assert!(result.is_err());
}

#[test]
fn truncated_identity_files_are_refused() {
    let identity = Identity::generate();
    let public = identity.public_file_bytes();
    let secret = identity.secret_file_bytes(None).unwrap();
    let err = |r: Result<Identity, RamzError>| match r {
        Err(RamzError::Backend(m)) => m,
        _ => panic!("expected a backend error"),
    };
    assert_eq!(err(Identity::load_with_password(&public[..20], &secret, "")), "truncated identity file");
    assert_eq!(err(Identity::load_with_password(&public, &secret[..9], "")), "truncated identity file");
    assert_eq!(err(Identity::load_with_password(b"nope", &secret, "")), "invalid public identity file");
    assert_eq!(err(Identity::load_with_password(&public, b"RIM1PUB\0", "")), "invalid secret identity file");
    let mut odd = secret.clone();
    odd[7] = 9;
    assert_eq!(err(Identity::load_with_password(&public, &odd, "")), "unknown identity protection mode");
}

#[test]
fn recipient_file_parsing() {
    let identity = Identity::generate();
    let public = identity.public_file_bytes();
    assert_eq!(parse_recipient_file(&public).unwrap(), identity.encapsulation_key);
    match parse_recipient_file(b"RIM1SEC whatever") {
        Err(RamzError::Backend(m)) => assert_eq!(m, "invalid recipient file (expected RIM1PUB identity)"),
        _ => panic!("expected a refusal"),
    }
    match parse_recipient_file(&public[..100]) {
        Err(RamzError::Backend(m)) => assert_eq!(m, "truncated identity file"),
        _ => panic!("expected a refusal"),
    }
}

#[test]
fn container_password_roundtrip() {
    let sealed = seal_container(&ContainerMode::Argon2id, b"payload bytes", Some("pw"), 64, 1, 1).unwrap();
    assert_eq!(&sealed[0..4], b"RMZ1");
    assert_eq!(sealed[4], 0x01);
    assert_eq!(open_container(&sealed, Some("pw"), None).unwrap(), b"payload bytes");
    assert_eq!(backend_message(open_container(&sealed, Some("other"), None)), "wrong password or corrupted archive");
    assert_eq!(backend_message(open_container(&sealed, None, None)), "age requires a password");
}

#[test]
fn container_hybrid_roundtrip() {
    let sealed = seal_container(&ContainerMode::MlKemHybrid, b"hybrid payload", Some("pw"), 64, 1, 1).unwrap();
    assert_eq!(sealed[4], 0x03);
    assert_eq!(open_container(&sealed, Some("pw"), None).unwrap(), b"hybrid payload");
    assert_eq!(backend_message(open_container(&sealed, Some("nope"), None)), "wrong password or corrupted archive");
}

#[test]
fn container_recipient_roundtrip() {
    let identity = Identity::generate();
    let mode = ContainerMode::Recipient(identity.encapsulation_key.clone());
    let sealed = seal_container(&mode, b"for the recipient", None, 65536, 3, 4).unwrap();
    assert_eq!(sealed[4], 0x05);
    let opened = open_container(&sealed, None, Some(identity.decapsulation_key.as_slice())).unwrap();
    assert_eq!(opened, b"for the recipient");
    assert_eq!(
        backend_message(open_container(&sealed, Some("pw"), None)),
        "recipient archive requires --identity to decrypt"
    );
    let stranger = Identity::generate();
    assert_eq!(
        backend_message(open_container(&sealed, None, Some(stranger.decapsulation_key.as_slice()))),
        "wrong password or corrupted archive"
    );
}

#[test]
fn container_refusals_when_sealing() {
    assert_eq!(
        backend_message(seal_container(&ContainerMode::Argon2id, b"x", None, 64, 1, 1)),
        "age requires a password"
    );
    assert_eq!(
        backend_message(seal_container(&ContainerMode::Recipient(vec![1, 2, 3]), b"x", None, 64, 1, 1)),
        "mlkem encapsulate: invalid public key length"
    );
    assert_eq!(
        backend_message(seal_container(&ContainerMode::Recipient(vec![0xff; 1184]), b"x", None, 64, 1, 1)),
        "mlkem encapsulate: invalid public key"
    );
    assert!(backend_message(seal_container(&ContainerMode::Argon2id, b"x", Some("pw"), 1, 1, 1)).starts_with("argon2 derive: "));
}

#[test]
fn test_corrupted_custom_container_header_does_not_panic() {
    let sealed = seal_container(&ContainerMode::MlKemHybrid, b"data", Some("pw"), 64, 1, 1).unwrap();
    for cut in [0usize, 4, 5, 20, 32, 33, 34, 40, 1000, 1121, 1130, 1140, 1200] {
        let cut = cut.min(sealed.len());
        let r = open_container(&sealed[..cut], Some("pw"), None);
        assert!(matches!(r, Err(RamzError::Backend(_))), "cut at {}", cut);
    }
    let mut huge = sealed.clone();
    huge[33..37].copy_from_slice(&u32::MAX.to_le_bytes());
    assert_eq!(backend_message(open_container(&huge, Some("pw"), None)), "truncated archive header");
}

#[test]
fn container_serialization_roundtrip() {
    let c = Container {
        flags: 0x05,
        memory_kib: 1,
        iterations: 2,
        parallelism: 3,
        salt: vec![9; 16],
        key_material: KeyMaterial::Recipient { mlkem_ct: vec![1, 2, 3] },
        payload_nonce: vec![4; 12],
        ciphertext: vec![5, 6],
    };
    let bytes = c.to_bytes();
    let mut expected = b"RMZ1".to_vec();
    expected.push(0x05);
    expected.extend_from_slice(&1u32.to_le_bytes());
    expected.extend_from_slice(&2u32.to_le_bytes());
    expected.extend_from_slice(&3u32.to_le_bytes());
    expected.extend_from_slice(&[9; 16]);
    expected.extend_from_slice(&3u32.to_le_bytes());
    expected.extend_from_slice(&[1, 2, 3]);
    expected.extend_from_slice(&[4; 12]);
    expected.extend_from_slice(&[5, 6]);
    assert_eq!(bytes, expected);
}

#[test]
fn sealed_container_lengths() {
    let payload = vec![7u8; 100];
    let a = seal_container(&ContainerMode::Argon2id, &payload, Some("pw"), 64, 1, 1).unwrap();
    assert_eq!(a.len(), 100 + 61);
    let h = seal_container(&ContainerMode::MlKemHybrid, &payload, Some("pw"), 64, 1, 1).unwrap();
    assert_eq!(h.len(), 100 + 1249);
    let id = Identity::generate();
    let r = seal_container(&ContainerMode::Recipient(id.encapsulation_key.clone()), &payload, None, 64, 1, 1).unwrap();
    assert_eq!(r.len(), 100 + 1153);
    assert_eq!(u32::from_le_bytes(r[33..37].try_into().unwrap()), 1088);
}

#[test]
fn protected_secret_file_length() {
    let identity = Identity::generate();
    let raw = identity.secret_file_bytes(Some("pw")).unwrap();
    let enc_len = u32::from_le_bytes(raw[36..40].try_into().unwrap()) as usize;
    assert_eq!(enc_len, identity.decapsulation_key.len() + 16);
    assert_eq!(raw.len(), 40 + enc_len);
}
