use secrets_rs::{
    bind_all, collect_errors, BindError, Bindable, RegisteredSource, Secret, SecretValue, Source,
    SourceError, SourceRegistry,
};

/// The environment the tests bind from.
const ENV: &[(&str, &str)] = &[("BINDABLE_TEST_A", "alpha"), ("BINDABLE_TEST_B", "beta")];

/// Binds `secret` through the registry, reading environment variables from
/// `ENV` for the environment source.
fn bind_from_env<T: SecretValue>(
    secret: &mut Secret<T>,
    registry: &SourceRegistry,
) -> Result<(), BindError> {
    let (source, name) = secret.fetch_request(registry)?;
    let fetched = match source {
        RegisteredSource::Env(e) => {
            let value = ENV.iter().find(|(k, _)| *k == name).map(|(_, v)| v.to_string());
            e.lookup_result(&name, value)
        }
        RegisteredSource::Custom(c) => c.get(&name),
        RegisteredSource::File(_) => panic!("the tests register no file source"),
    };
    secret.complete_bind(fetched)
}

/// A source that knows a fixed set of names.
struct TableSource(Vec<(&'static str, &'static str)>);

impl Source for TableSource {
    fn get(&self, name: &str) -> Result<Vec<u8>, SourceError> {
        for (k, v) in &self.0 {
            if *k == name {
                return Ok(v.as_bytes().to_vec());
            }
        }
        Err(SourceError::NotFound {
            name: name.to_string(),
        })
    }
}

struct Config {
    key_a: Secret<String>,
    key_b: Secret<String>,
}

impl Bindable for Config {
    fn bind_secrets(&mut self, registry: &SourceRegistry) -> Result<(), Vec<BindError>> {
        collect_errors(vec![
            bind_from_env(&mut self.key_a, registry),
            bind_from_env(&mut self.key_b, registry),
        ])
    }
}

fn registry() -> SourceRegistry {
    SourceRegistry::new()
}

#[test]
fn bind_all_uses_a_custom_source_registered_over_env() {
    let mut r = SourceRegistry::new();
    r.register("env", TableSource(vec![("BINDABLE_TEST_A", "custom-a"), ("BINDABLE_TEST_B", "custom-b")]))
        .unwrap();
    let mut config = Config {
        key_a: Secret::new("urn:secrets-rs:env:BINDABLE_TEST_A").unwrap(),
        key_b: Secret::new("urn:secrets-rs:env:BINDABLE_TEST_B").unwrap(),
    };
    bind_all(&mut config, &r).unwrap();
    assert_eq!(config.key_a.value().unwrap(), "custom-a");
    assert_eq!(config.key_b.value().unwrap(), "custom-b");
}

#[test]
fn bind_all_populates_both_secrets() {
    let mut config = Config {
        key_a: Secret::new("urn:secrets-rs:env:BINDABLE_TEST_A").unwrap(),
        key_b: Secret::new("urn:secrets-rs:env:BINDABLE_TEST_B").unwrap(),
    };
    bind_all(&mut config, &registry()).unwrap();
    assert_eq!(config.key_a.value().unwrap(), "alpha");
    assert_eq!(config.key_b.value().unwrap(), "beta");
}

#[test]
fn bind_all_collects_all_errors() {
    let mut config = Config {
        key_a: Secret::new("urn:secrets-rs:env:BINDABLE_MISSING_A").unwrap(),
        key_b: Secret::new("urn:secrets-rs:env:BINDABLE_MISSING_B").unwrap(),
    };
    let errors = bind_all(&mut config, &registry()).unwrap_err();
    assert_eq!(errors.len(), 2);
}

// Further cases.

#[test]
fn bind_all_reports_only_the_failing_secrets_in_order() {
    let mut config = Config {
        key_a: Secret::new("urn:secrets-rs:vault:X").unwrap(),
        key_b: Secret::new("urn:secrets-rs:env:BINDABLE_TEST_B").unwrap(),
    };
    let errors = bind_all(&mut config, &registry()).unwrap_err();
    assert_eq!(
        errors,
        vec![BindError::SourceNotFound {
            source_id: "vault".to_string()
        }]
    );
    assert_eq!(config.key_b.value().unwrap(), "beta");
    assert!(config.key_a.value().is_err());
}

#[test]
fn collect_errors_keeps_every_error_in_order() {
    let e = |s: &str| BindError::SourceNotFound {
        source_id: s.to_string(),
    };
    assert_eq!(collect_errors(vec![]), Ok(()));
    assert_eq!(collect_errors(vec![Ok(()), Ok(())]), Ok(()));
    assert_eq!(
        collect_errors(vec![Err(e("a")), Ok(()), Err(e("b"))]),
        Err(vec![e("a"), e("b")])
    );
}
