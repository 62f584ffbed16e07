use secrets_rs::{
    BindError, FileSource, ReadError, RegisteredSource, Secret, SecretValue, Source, SourceError, SourceRegistry,
    UrnParseError,
};

/// Binds `secret` from a registry whose source for its id is a custom one.
fn bind_from_custom<T: SecretValue>(
    secret: &mut Secret<T>,
    registry: &SourceRegistry,
) -> Result<(), BindError> {
    let (source, name) = secret.fetch_request(registry)?;
    let fetched = match source {
        RegisteredSource::Custom(c) => c.get(&name),
        _ => panic!("the tests register custom sources only"),
    };
    secret.complete_bind(fetched)
}

/// Binds `secret` through the environment source, with the environment
/// holding the variables in `env`.
fn bind_from_env<T: SecretValue>(
    secret: &mut Secret<T>,
    registry: &SourceRegistry,
    env: &[(&str, &str)],
) -> Result<(), BindError> {
    let (source, name) = secret.fetch_request(registry)?;
    let fetched = match source {
        RegisteredSource::Env(e) => {
            let value = env.iter().find(|(k, _)| *k == name).map(|(_, v)| v.to_string());
            e.lookup_result(&name, value)
        }
        _ => panic!("expected the environment source"),
    };
    secret.complete_bind(fetched)
}

struct ConstSource(&'static [u8]);

impl Source for ConstSource {
    fn get(&self, _name: &str) -> Result<Vec<u8>, SourceError> {
        Ok(self.0.to_vec())
    }
}

fn registry_with(id: &str, bytes: &'static [u8]) -> SourceRegistry {
    let mut registry = SourceRegistry::new();
    registry.register(id, ConstSource(bytes)).unwrap();
    registry
}

#[test]
fn unbound_masked_value() {
    let s: Secret<String> = Secret::new("urn:secrets-rs:env:MY_KEY").unwrap();
    assert_eq!(s.masked_value(), "urn:secrets-rs:env:MY_KEY [UNBOUND]");
}

#[test]
fn display_shows_masked_value() {
    let s: Secret<String> = Secret::new("urn:secrets-rs:env:MY_KEY").unwrap();
    assert_eq!(s.to_string(), "urn:secrets-rs:env:MY_KEY [UNBOUND]");
}

#[test]
fn debug_shows_masked_value() {
    let s: Secret<String> = Secret::new("urn:secrets-rs:env:MY_KEY").unwrap();
    assert_eq!(s.debug_string(), "Secret(urn:secrets-rs:env:MY_KEY [UNBOUND])");
}

#[test]
fn value_before_bind_is_error() {
    let s: Secret<String> = Secret::new("urn:secrets-rs:env:MY_KEY").unwrap();
    assert!(s.value().is_err());
}

#[test]
fn bound_masked_value_includes_type_and_length() {
    let mut s: Secret<String> = Secret::new("urn:secrets-rs:env:SECRET_TEST_MASKED").unwrap();
    let registry = SourceRegistry::new();
    bind_from_env(&mut s, &registry, &[("SECRET_TEST_MASKED", "hello")]).unwrap();
    assert_eq!(
        s.masked_value(),
        "urn:secrets-rs:env:SECRET_TEST_MASKED [string:5]"
    );
}

#[test]
fn value_after_bind_returns_correct_value() {
    let mut s: Secret<String> = Secret::new("urn:secrets-rs:env:SECRET_TEST_VALUE").unwrap();
    let registry = SourceRegistry::new();
    bind_from_env(&mut s, &registry, &[("SECRET_TEST_VALUE", "s3cr3t")]).unwrap();
    assert_eq!(s.value().unwrap(), "s3cr3t");
}

// Further cases.

#[test]
fn new_rejects_an_invalid_urn() {
    let r: Result<Secret<String>, _> = Secret::new("urn:secrets-rs:env:");
    assert_eq!(r.err(), Some(UrnParseError::EmptyName));
}

#[test]
fn unbound_error_names_the_urn_in_lower_case() {
    let s: Secret<Vec<u8>> = Secret::new("URN:Secrets-RS:env:K").unwrap();
    assert_eq!(s.value().unwrap_err().urn, "urn:secrets-rs:env:K");
    assert_eq!(s.urn().source_id, "env");
    assert_eq!(s.urn().name, "K");
}

#[test]
fn string_size_counts_characters_not_bytes() {
    let mut s: Secret<String> = Secret::new("urn:secrets-rs:env:K").unwrap();
    let registry = registry_with("env", "héllo".as_bytes());
    bind_from_custom(&mut s, &registry).unwrap();
    assert_eq!(s.masked_value(), "urn:secrets-rs:env:K [string:5]");
    assert_eq!(s.debug_string(), "Secret(urn:secrets-rs:env:K [string:5])");
}

#[test]
fn bytes_secret_shows_byte_count() {
    let mut s: Secret<Vec<u8>> = Secret::new("urn:secrets-rs:env:K").unwrap();
    let registry = registry_with("env", &[0xff, 0x00, 0x30]);
    bind_from_custom(&mut s, &registry).unwrap();
    assert_eq!(s.value().unwrap(), &vec![0xff, 0x00, 0x30]);
    assert_eq!(s.masked_value(), "urn:secrets-rs:env:K [bytes:3]");
}

#[test]
fn size_of_ten_or_more_is_written_in_decimal() {
    let mut s: Secret<Vec<u8>> = Secret::new("urn:secrets-rs:env:K").unwrap();
    let registry = registry_with("env", &[7u8; 1234]);
    bind_from_custom(&mut s, &registry).unwrap();
    assert_eq!(s.masked_value(), "urn:secrets-rs:env:K [bytes:1234]");
}

#[test]
fn json_secret_shows_compact_text_length() {
    let mut s: Secret<serde_json::Value> = Secret::new("urn:secrets-rs:env:K").unwrap();
    let registry = registry_with("env", b"{ \"a\" : [1, 2] }");
    bind_from_custom(&mut s, &registry).unwrap();
    assert_eq!(s.value().unwrap()["a"][1], 2);
    // Compact text: {"a":[1,2]}
    assert_eq!(s.masked_value(), "urn:secrets-rs:env:K [json:11]");
}

#[test]
fn invalid_json_is_a_type_conversion_error() {
    let mut s: Secret<serde_json::Value> = Secret::new("urn:secrets-rs:env:K").unwrap();
    let registry = registry_with("env", b"{not json");
    let err = bind_from_custom(&mut s, &registry).unwrap_err();
    assert!(matches!(err, BindError::TypeConversion { ref urn, .. } if urn == "urn:secrets-rs:env:K"));
    assert!(s.value().is_err());
}

#[test]
fn invalid_utf8_is_a_type_conversion_error_and_keeps_the_old_value() {
    let mut s: Secret<String> = Secret::new("urn:secrets-rs:env:K").unwrap();
    s.complete_bind(Ok(b"first".to_vec())).unwrap();
    let err = s.complete_bind(Ok(vec![0xc3, 0x28])).unwrap_err();
    assert!(matches!(err, BindError::TypeConversion { ref urn, .. } if urn == "urn:secrets-rs:env:K"));
    assert_eq!(s.value().unwrap(), "first");
}

#[test]
fn unset_variable_is_name_not_found() {
    let mut s: Secret<String> = Secret::new("urn:secrets-rs:env:UNSET").unwrap();
    let err = bind_from_env(&mut s, &SourceRegistry::new(), &[]).unwrap_err();
    assert_eq!(
        err,
        BindError::NameNotFound {
            source_id: "env".to_string(),
            name: "UNSET".to_string()
        }
    );
}

#[test]
fn invalid_utf8_error_describes_the_bytes() {
    let mut s: Secret<String> = Secret::new("urn:secrets-rs:env:K").unwrap();
    let err = s.complete_bind(Ok(vec![0x61, 0xff])).unwrap_err();
    let expected = String::from_utf8(vec![0x61, 0xff]).unwrap_err().to_string();
    assert_eq!(
        err,
        BindError::TypeConversion {
            urn: "urn:secrets-rs:env:K".to_string(),
            detail: expected
        }
    );
}

#[test]
fn missing_source_is_source_not_found() {
    let mut s: Secret<String> = Secret::new("urn:secrets-rs:vault:K").unwrap();
    let registry = SourceRegistry::new();
    let err = bind_from_custom(&mut s, &registry).unwrap_err();
    assert_eq!(
        err,
        BindError::SourceNotFound {
            source_id: "vault".to_string()
        }
    );
}

#[test]
fn source_not_found_answer_becomes_name_not_found() {
    let mut s: Secret<String> = Secret::new("urn:secrets-rs:env:K").unwrap();
    let err = s
        .complete_bind(Err(SourceError::NotFound {
            name: "K".to_string(),
        }))
        .unwrap_err();
    assert_eq!(
        err,
        BindError::NameNotFound {
            source_id: "env".to_string(),
            name: "K".to_string()
        }
    );
    assert!(s.value().is_err());
}

#[test]
fn other_source_failure_becomes_source_error() {
    let mut s: Secret<String> = Secret::new("urn:secrets-rs:env:K").unwrap();
    let err = s
        .complete_bind(Err(SourceError::Other("boom".to_string())))
        .unwrap_err();
    assert_eq!(
        err,
        BindError::Source {
            urn: "urn:secrets-rs:env:K".to_string(),
            source: SourceError::Other("boom".to_string())
        }
    );
}

#[test]
fn fetch_request_names_the_urn_name() {
    let s: Secret<String> = Secret::new("urn:secrets-rs:env:a:b").unwrap();
    let registry = SourceRegistry::new();
    let (source, name) = s.fetch_request(&registry).unwrap();
    assert!(matches!(source, RegisteredSource::Env(_)));
    assert_eq!(name, "a:b");
}

#[test]
fn missing_file_returns_name_not_found() {
    let urn = "urn:secrets-rs:file:/tmp/dir/nonexistent.key";
    let mut secret: Secret<Vec<u8>> = Secret::new(urn).unwrap();
    let mut registry = SourceRegistry::new();
    registry.register_file("file", FileSource::new()).unwrap();
    let (source, name) = secret.fetch_request(&registry).unwrap();
    let fetched = match source {
        RegisteredSource::File(f) => {
            assert_eq!(f.resolve(&name), "/tmp/dir/nonexistent.key");
            FileSource::read_result(&name, Err(ReadError::NotFound))
        }
        _ => panic!("expected the file source"),
    };
    let err = secret.complete_bind(fetched).unwrap_err();
    assert!(matches!(err, BindError::NameNotFound { .. }));
}
