use aes_gcm::aead::{Aead, KeyInit};
use tusker_core::export::{
    derive_key, encrypt_and_write, frame, read_and_decrypt, ExportPayload, ExportedProject,
};

fn sample_project() -> ExportedProject {
    ExportedProject {
        name: "Test DB".to_string(),
        color: "blue".to_string(),
        host: "localhost".to_string(),
        port: 5432,
        database: "testdb".to_string(),
        username: "postgres".to_string(),
        password: "secret123".to_string(),
        ssl: false,
        instant_commit: false,
        read_only: false,
        last_connected: Some("2026-01-01T00:00:00Z".to_string()),
        created_at: "2026-01-01T00:00:00Z".to_string(),
    }
}

fn optional(value: &Option<String>) -> serde_json::Value {
    match value {
        Some(s) => serde_json::Value::String(s.clone()),
        None => serde_json::Value::Null,
    }
}

/// The JSON text of a payload, as the file holds it.
fn to_json(payload: &ExportPayload) -> Vec<u8> {
    let mut projects = Vec::new();
    for p in &payload.projects {
        let mut o = serde_json::Map::new();
        o.insert("name".to_string(), serde_json::Value::String(p.name.clone()));
        o.insert("color".to_string(), serde_json::Value::String(p.color.clone()));
        o.insert("host".to_string(), serde_json::Value::String(p.host.clone()));
        o.insert("port".to_string(), serde_json::Value::from(p.port));
        o.insert("database".to_string(), serde_json::Value::String(p.database.clone()));
        o.insert("username".to_string(), serde_json::Value::String(p.username.clone()));
        o.insert("password".to_string(), serde_json::Value::String(p.password.clone()));
        o.insert("ssl".to_string(), serde_json::Value::Bool(p.ssl));
        o.insert("instant_commit".to_string(), serde_json::Value::Bool(p.instant_commit));
        o.insert("read_only".to_string(), serde_json::Value::Bool(p.read_only));
        o.insert("last_connected".to_string(), optional(&p.last_connected));
        o.insert("created_at".to_string(), serde_json::Value::String(p.created_at.clone()));
        projects.push(serde_json::Value::Object(o));
    }
    let mut root = serde_json::Map::new();
    root.insert("version".to_string(), serde_json::Value::from(payload.version));
    root.insert("exported_at".to_string(), serde_json::Value::String(payload.exported_at.clone()));
    root.insert("projects".to_string(), serde_json::Value::Array(projects));
    serde_json::to_vec(&serde_json::Value::Object(root)).unwrap()
}

fn export(projects: Vec<ExportedProject>, password: &str) -> Vec<u8> {
    encrypt_and_write(&to_json(&ExportPayload::new(projects)), password).unwrap()
}

#[test]
fn test_roundtrip() {
    let password = "testpassword123";
    let file = export(vec![sample_project()], password);

    let payload: serde_json::Value =
        serde_json::from_slice(&read_and_decrypt(&file, password).unwrap()).unwrap();
    assert_eq!(payload["projects"].as_array().unwrap().len(), 1);
    assert_eq!(payload["projects"][0]["name"], "Test DB");
    assert_eq!(payload["projects"][0]["password"], "secret123");
    assert_eq!(payload["version"], 1);
}

#[test]
fn test_wrong_password() {
    let file = export(vec![sample_project()], "correct");

    let result = read_and_decrypt(&file, "wrong");
    assert!(result.is_err());
    let err = result.unwrap_err().to_string();
    assert!(err.contains("Incorrect password"));
}

#[test]
fn test_truncated_file() {
    let result = read_and_decrypt(b"TUS", "password");
    assert!(result.is_err());
    let err = result.unwrap_err().to_string();
    assert!(err.contains("too short"));
}

#[test]
fn scenario_pw123_round_trip() {
    let file = export(vec![sample_project()], "pw123");
    let payload: serde_json::Value =
        serde_json::from_slice(&read_and_decrypt(&file, "pw123").unwrap()).unwrap();
    assert_eq!(payload["version"], 1);
    assert_eq!(payload["projects"][0]["name"], "Test DB");
    assert_eq!(payload["projects"][0]["password"], "secret123");
}

#[test]
fn scenario_pw123_wrong_password() {
    let file = export(vec![sample_project()], "pw123");
    let err = read_and_decrypt(&file, "wrong").unwrap_err().to_string();
    assert!(err.contains("Incorrect password"));
    assert_eq!(err, "Export error: Incorrect password or corrupted file");
}

#[test]
fn file_layout() {
    let payload = b"{\"version\":1}".to_vec();
    let file = encrypt_and_write(&payload, "pw").unwrap();
    assert_eq!(&file[0..4], b"TUSK");
    assert_eq!(file[4], 1);
    assert_eq!(file.len(), 49 + payload.len() + 16);
    assert!(!file[49..].windows(payload.len()).any(|w| w == payload.as_slice()));
    let other = encrypt_and_write(&payload, "pw").unwrap();
    assert_ne!(file[5..37], other[5..37]);
    assert_ne!(file[37..49], other[37..49]);
    assert_ne!(file[49..], other[49..]);
    assert_eq!(read_and_decrypt(&other, "pw").unwrap(), payload);
}

#[test]
fn empty_payload_and_empty_password() {
    let file = encrypt_and_write(b"", "").unwrap();
    assert_eq!(file.len(), 49 + 16);
    assert_eq!(read_and_decrypt(&file, "").unwrap(), b"");
}

#[test]
fn short_files_are_too_short_whatever_they_hold() {
    for data in [&b""[..], &b"not a tusker file"[..], &[b'T'; 48][..]] {
        let err = read_and_decrypt(data, "password").unwrap_err().to_string();
        assert_eq!(err, "Export error: Invalid file: too short");
    }
}

#[test]
fn non_tusk_magic_is_refused() {
    let mut data = b"not a tusker file".to_vec();
    data.resize(64, 0);
    let err = read_and_decrypt(&data, "password").unwrap_err().to_string();
    assert!(err.contains("Not a valid Tusker"));
    assert_eq!(err, "Export error: Not a valid Tusker export file");
    let mut almost = frame(&[0u8; 32], &[0u8; 12], &[0u8; 17]);
    almost[3] = b'k';
    assert!(read_and_decrypt(&almost, "pw").unwrap_err().to_string().contains("Not a valid Tusker"));
}

#[test]
fn other_versions_are_refused() {
    let mut file = frame(&[0u8; 32], &[0u8; 12], &[0u8; 17]);
    file[4] = 2;
    assert_eq!(
        read_and_decrypt(&file, "pw").unwrap_err().to_string(),
        "Export error: Unsupported file version: 2"
    );
    file[4] = 255;
    assert_eq!(
        read_and_decrypt(&file, "pw").unwrap_err().to_string(),
        "Export error: Unsupported file version: 255"
    );
}

fn refused_as_unauthentic(data: &[u8]) {
    assert_eq!(
        read_and_decrypt(data, "pw").unwrap_err().to_string(),
        "Export error: Incorrect password or corrupted file"
    );
}

#[test]
fn a_changed_salt_does_not_open() {
    let mut file = encrypt_and_write(b"payload", "pw").unwrap();
    file[5] ^= 1;
    refused_as_unauthentic(&file);
}

#[test]
fn a_changed_nonce_does_not_open() {
    let mut file = encrypt_and_write(b"payload", "pw").unwrap();
    file[48] ^= 1;
    refused_as_unauthentic(&file);
}

#[test]
fn a_changed_payload_does_not_open() {
    let mut file = encrypt_and_write(b"payload", "pw").unwrap();
    let last = file.len() - 1;
    file[last] ^= 1;
    refused_as_unauthentic(&file);
    file[last] ^= 1;
    file[49] ^= 0x80;
    refused_as_unauthentic(&file);
}

#[test]
fn a_header_without_payload_does_not_open() {
    let file = encrypt_and_write(b"payload", "pw").unwrap();
    refused_as_unauthentic(&file[..49]);
    refused_as_unauthentic(&file[..64]);
}

#[test]
fn key_derivation_depends_on_password_and_salt() {
    let salt = [7u8; 32];
    let key = derive_key("password", &salt).unwrap();
    assert_eq!(key.len(), 32);
    assert_ne!(key.as_slice(), &salt[..]);
    assert_ne!(key, derive_key("passwore", &salt).unwrap());
    assert_ne!(key, derive_key("password", &[8u8; 32]).unwrap());
}

#[test]
fn key_derivation_is_repeatable() {
    let salt = [7u8; 32];
    assert_eq!(derive_key("password", &salt).unwrap(), derive_key("password", &salt).unwrap());
}

#[test]
fn key_derivation_needs_a_salt_of_eight_bytes() {
    let err = derive_key("password", &[1u8; 7]).unwrap_err().to_string();
    assert!(err.starts_with("Export error: Key derivation failed: "));
    assert!(err.len() > "Export error: Key derivation failed: ".len());
    assert!(derive_key("password", &[1u8; 8]).is_ok());
}

#[test]
fn key_is_argon2id_with_the_documented_parameters() {
    let salt = [9u8; 32];
    let params = argon2::Params::new(65536, 3, 4, Some(32)).unwrap();
    let hasher = argon2::Argon2::new(argon2::Algorithm::Argon2id, argon2::Version::V0x13, params);
    let mut expected = [0u8; 32];
    hasher.hash_password_into("pässword".as_bytes(), &salt, &mut expected).unwrap();
    assert_eq!(derive_key("pässword", &salt).unwrap(), expected.to_vec());
}

#[test]
fn payload_is_sealed_with_aes_256_gcm_under_the_derived_key() {
    let payload = b"the payload".to_vec();
    let file = encrypt_and_write(&payload, "pw").unwrap();
    let key = derive_key("pw", &file[5..37]).unwrap();
    let cipher = aes_gcm::Aes256Gcm::new_from_slice(&key).unwrap();
    let opened = cipher.decrypt(aes_gcm::Nonce::from_slice(&file[37..49]), &file[49..]).unwrap();
    assert_eq!(opened, payload);
    let sealed = cipher.encrypt(aes_gcm::Nonce::from_slice(&[5u8; 12]), payload.as_slice()).unwrap();
    let made = frame(&file[5..37], &[5u8; 12], &sealed);
    assert_eq!(read_and_decrypt(&made, "pw").unwrap(), payload);
}

#[test]
fn framing() {
    let file = frame(&[1u8; 32], &[2u8; 12], &[3u8; 5]);
    let mut expected = b"TUSK\x01".to_vec();
    expected.extend_from_slice(&[1u8; 32]);
    expected.extend_from_slice(&[2u8; 12]);
    expected.extend_from_slice(&[3u8; 5]);
    assert_eq!(file, expected);
}

#[test]
fn payload_is_stamped() {
    let payload = ExportPayload::new(vec![sample_project()]);
    assert_eq!(payload.version, 1);
    assert_eq!(payload.projects.len(), 1);
    assert!(payload.exported_at.contains('T'));
}
