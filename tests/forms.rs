use mail_admin_forms::crypto::{Algorithm, EncryptionMethod, EncryptionType, CRYPTO_SCHEMA};
use mail_admin_forms::form::FormData;
use mail_admin_forms::schema::{
    has_unique_names, Builder, Condition, FieldDef, FieldType, Schemas, Validator,
};

fn crypto_schemas() -> Schemas {
    Builder::new().build_crypto().build()
}

fn text_field(name: &str, validators: Vec<Validator>, display_if: Option<Condition>) -> FieldDef {
    FieldDef {
        name: name.to_string(),
        typ: FieldType::Text,
        default: None,
        validators,
        display_if,
    }
}

#[test]
fn lookup_returns_registered_fields_in_order() {
    let mut schemas = Schemas::new();
    schemas.register(
        "profile",
        vec![
            text_field("name", vec![Validator::Required], None),
            text_field("email", vec![], None),
            text_field("notes", vec![], None),
        ],
    );
    assert!(schemas.contains("profile"));
    assert!(!schemas.contains("other"));
    let names: Vec<&str> = schemas
        .lookup("profile")
        .fields
        .iter()
        .map(|f| f.name.as_str())
        .collect();
    assert_eq!(names, vec!["name", "email", "notes"]);
}

#[test]
fn register_again_replaces_schema() {
    let mut schemas = Schemas::new();
    schemas.register("a", vec![text_field("x", vec![], None)]);
    schemas.register("b", vec![text_field("z", vec![], None)]);
    schemas.register("a", vec![text_field("y", vec![], None), text_field("w", vec![], None)]);
    let a = schemas.lookup("a");
    assert_eq!(a.fields.len(), 2);
    assert_eq!(a.fields[0].name, "y");
    assert_eq!(schemas.lookup("b").fields[0].name, "z");
}

#[test]
fn crypto_schema_layout() {
    let schemas = crypto_schemas();
    let schema = schemas.lookup(CRYPTO_SCHEMA);
    let names: Vec<&str> = schema.fields.iter().map(|f| f.name.as_str()).collect();
    assert_eq!(names, vec!["type", "algo", "certs", "password"]);
    assert_eq!(schema.fields[1].default.as_deref(), Some("aes256"));
    assert_eq!(schema.fields[2].validators, vec![Validator::Required]);
}

#[test]
fn fresh_form_holds_defaults() {
    let schemas = crypto_schemas();
    let form = FormData::new(schemas.lookup(CRYPTO_SCHEMA));
    assert_eq!(form.value("type"), Some(String::new()));
    assert_eq!(form.value("algo"), Some("aes256".to_string()));
    assert_eq!(form.value("certs"), None);
    assert_eq!(form.value("missing"), None);
}

#[test]
fn set_unknown_field_is_ignored() {
    let schemas = crypto_schemas();
    let mut form = FormData::new(schemas.lookup(CRYPTO_SCHEMA));
    form.set("nope", "x");
    assert_eq!(form.value("nope"), None);
    form.set("certs", "abc");
    form.set("certs", "def");
    assert_eq!(form.value("certs"), Some("def".to_string()));
}

#[test]
fn visibility_follows_method() {
    let schemas = crypto_schemas();
    let mut form = FormData::new(schemas.lookup(CRYPTO_SCHEMA));
    assert!(form.is_visible("type"));
    assert!(form.is_visible("password"));
    assert!(!form.is_visible("algo"));
    assert!(!form.is_visible("certs"));
    assert!(!form.is_visible("missing"));
    form.set("type", "smime");
    assert!(form.is_visible("algo"));
    assert!(form.is_visible("certs"));
    form.set("type", "other");
    assert!(!form.is_visible("certs"));
}

#[test]
fn validate_twice_gives_same_errors() {
    let schemas = crypto_schemas();
    let mut form = FormData::new(schemas.lookup(CRYPTO_SCHEMA));
    form.set("type", "pgp");
    let first = form.validate();
    let errors: Vec<Option<Validator>> =
        ["type", "algo", "certs", "password"].iter().map(|n| form.error(n)).collect();
    let second = form.validate();
    let again: Vec<Option<Validator>> =
        ["type", "algo", "certs", "password"].iter().map(|n| form.error(n)).collect();
    assert!(!first);
    assert_eq!(first, second);
    assert_eq!(errors, again);
}

#[test]
fn required_field_fails_when_empty() {
    let mut schemas = Schemas::new();
    schemas.register("f", vec![text_field("name", vec![Validator::Required], None)]);
    let mut form = FormData::new(schemas.lookup("f"));
    assert!(!form.validate());
    assert_eq!(form.error("name"), Some(Validator::Required));
    form.set("name", "");
    assert!(!form.validate());
    assert_eq!(form.error("name"), Some(Validator::Required));
    form.set("name", "x");
    assert!(form.validate());
    assert_eq!(form.error("name"), None);
}

#[test]
fn hidden_field_never_fails() {
    let schemas = crypto_schemas();
    let mut form = FormData::new(schemas.lookup(CRYPTO_SCHEMA));
    form.set("password", "secret");
    form.set("type", "");
    assert!(form.validate());
    assert_eq!(form.error("certs"), None);
}

fn round_trip(value: EncryptionType) -> Option<EncryptionType> {
    let schemas = crypto_schemas();
    let mut form = FormData::new(schemas.lookup(CRYPTO_SCHEMA));
    form.from_encryption_params(&value);
    form.set("password", "secret");
    form.to_encryption_params()
}

#[test]
fn round_trip_pgp() {
    let v = EncryptionType::PGP { algo: Algorithm::Aes128, certs: "-----BEGIN PGP".to_string() };
    assert_eq!(round_trip(v.clone()), Some(v));
}

#[test]
fn round_trip_smime() {
    let v = EncryptionType::SMIME { algo: Algorithm::Aes256, certs: "-----BEGIN CERT".to_string() };
    assert_eq!(round_trip(v.clone()), Some(v));
}

#[test]
fn round_trip_disabled() {
    assert_eq!(round_trip(EncryptionType::Disabled), Some(EncryptionType::Disabled));
}

#[test]
fn disabled_path_still_requires_password() {
    let schemas = crypto_schemas();
    let mut form = FormData::new(schemas.lookup(CRYPTO_SCHEMA));
    form.from_encryption_params(&EncryptionType::Disabled);
    assert!(!form.validate());
    assert_eq!(form.to_encryption_params(), None);
    assert_eq!(form.error("password"), Some(Validator::Required));
    form.set("password", "secret");
    assert!(form.validate());
    assert_eq!(form.to_encryption_params(), Some(EncryptionType::Disabled));
}

#[test]
fn method_without_certificates_fails_on_payload() {
    let schemas = crypto_schemas();
    let mut form = FormData::new(schemas.lookup(CRYPTO_SCHEMA));
    form.set("password", "secret");
    form.set("type", "pgp");
    assert!(!form.validate());
    assert_eq!(form.error("certs"), Some(Validator::Required));
    assert_eq!(form.error("type"), None);
    assert_eq!(form.to_encryption_params(), None);
}

#[test]
fn unknown_cipher_reads_as_nothing() {
    let schemas = crypto_schemas();
    let mut form = FormData::new(schemas.lookup(CRYPTO_SCHEMA));
    form.set("password", "secret");
    form.set("type", "smime");
    form.set("certs", "c");
    form.set("algo", "rot13");
    assert!(form.validate());
    assert_eq!(form.to_encryption_params(), None);
}

#[test]
fn unknown_method_reads_as_disabled() {
    let schemas = crypto_schemas();
    let mut form = FormData::new(schemas.lookup(CRYPTO_SCHEMA));
    form.set("password", "secret");
    form.set("type", "rsa");
    assert_eq!(form.to_encryption_params(), Some(EncryptionType::Disabled));
}

#[test]
fn flatten_writes_strings() {
    let schemas = crypto_schemas();
    let mut form = FormData::new(schemas.lookup(CRYPTO_SCHEMA));
    form.from_encryption_params(&EncryptionType::SMIME {
        algo: Algorithm::Aes128,
        certs: "pem".to_string(),
    });
    assert_eq!(form.value("type"), Some("smime".to_string()));
    assert_eq!(form.value("algo"), Some("aes128".to_string()));
    assert_eq!(form.value("certs"), Some("pem".to_string()));
    form.from_encryption_params(&EncryptionType::Disabled);
    assert_eq!(form.value("type"), Some(String::new()));
    assert_eq!(form.value("certs"), Some("pem".to_string()));
}

#[test]
fn method_and_algorithm_names() {
    assert_eq!(EncryptionMethod::PGP.as_str(), "pgp");
    assert_eq!(EncryptionMethod::SMIME.as_str(), "smime");
    assert_eq!(EncryptionMethod::from_str("smime"), Ok(EncryptionMethod::SMIME));
    assert_eq!(EncryptionMethod::from_str("PGP"), Err(()));
    assert_eq!(Algorithm::Aes128.as_str(), "aes128");
    assert_eq!(Algorithm::from_str("aes256"), Ok(Algorithm::Aes256));
    assert_eq!(Algorithm::from_str(""), Err(()));
    assert_eq!(EncryptionType::default(), EncryptionType::Disabled);
}

#[test]
fn duplicate_field_names_detected() {
    let ok = vec![text_field("a", vec![], None), text_field("b", vec![], None)];
    assert!(has_unique_names(&ok));
    let dup = vec![
        text_field("a", vec![], None),
        text_field("b", vec![], None),
        text_field("a", vec![], None),
    ];
    assert!(!has_unique_names(&dup));
    assert!(has_unique_names(&vec![]));
}

#[test]
fn custom_condition_controls_validation() {
    let mut schemas = Schemas::new();
    schemas.register(
        "f",
        vec![
            text_field("kind", vec![], None),
            text_field(
                "detail",
                vec![Validator::Required],
                Some(Condition { field: "kind".to_string(), values: vec!["x".to_string()] }),
            ),
        ],
    );
    let mut form = FormData::new(schemas.lookup("f"));
    assert_eq!(form.schema().fields.len(), 2);
    assert!(form.validate());
    form.set("kind", "x");
    assert!(!form.validate());
    assert_eq!(form.error("detail"), Some(Validator::Required));
    form.set("kind", "y");
    assert!(form.validate());
    assert_eq!(form.error("detail"), None);
}
