use secrets_rs::{
    EnvSource, FileSource, RegisteredSource, Source, SourceError, SourceRegisterError,
    SourceRegistry,
};

#[test]
fn new_pre_registers_env_source() {
    let registry = SourceRegistry::new();
    assert!(
        registry.get("env").is_some(),
        "expected \"env\" to be registered by default"
    );
}

#[test]
fn new_does_not_register_file_by_default() {
    let registry = SourceRegistry::new();
    assert!(registry.get("file").is_none());
}

#[test]
fn register_replaces_existing_id() {
    struct ConstSource(&'static [u8]);
    impl Source for ConstSource {
        fn get(&self, _name: &str) -> Result<Vec<u8>, SourceError> {
            Ok(self.0.to_vec())
        }
    }

    let mut registry = SourceRegistry::new();
    registry.register("env", ConstSource(b"replaced")).unwrap();
    let result = registry
        .get("env")
        .unwrap()
        .custom()
        .unwrap()
        .get("anything")
        .unwrap();
    assert_eq!(result, b"replaced");
}

// Further cases.

#[test]
fn register_refuses_an_invalid_id_and_keeps_the_registry() {
    let mut registry = SourceRegistry::new();
    let err = registry.register_file("bad id", FileSource::new()).unwrap_err();
    assert_eq!(err, SourceRegisterError::InvalidSourceId("bad id".to_string()));
    assert!(registry.get("bad id").is_none());
    assert!(matches!(registry.get("env"), Some(RegisteredSource::Env(_))));
    assert_eq!(
        registry.register_env("", EnvSource),
        Err(SourceRegisterError::InvalidSourceId(String::new()))
    );
    assert_eq!(
        registry.register_env("a:b", EnvSource),
        Err(SourceRegisterError::InvalidSourceId("a:b".to_string()))
    );
}

#[test]
fn register_adds_under_new_ids_and_leaves_others() {
    let mut registry = SourceRegistry::default();
    registry.register_file("file", FileSource::new()).unwrap();
    registry
        .register_file("file-certs", FileSource::with_base("/etc/ssl"))
        .unwrap();
    assert!(matches!(registry.get("env"), Some(RegisteredSource::Env(_))));
    assert!(matches!(registry.get("file"), Some(RegisteredSource::File(_))));
    match registry.get("file-certs") {
        Some(RegisteredSource::File(f)) => assert_eq!(f.resolve("ca.crt"), "/etc/ssl/ca.crt"),
        _ => panic!("expected a file source"),
    }
    assert!(registry.get("file-cert").is_none());
}

#[test]
fn re_registering_a_built_in_replaces_a_custom_source() {
    struct Nothing;
    impl Source for Nothing {
        fn get(&self, name: &str) -> Result<Vec<u8>, SourceError> {
            Err(SourceError::NotFound {
                name: name.to_string(),
            })
        }
    }
    let mut registry = SourceRegistry::new();
    registry.register("env", Nothing).unwrap();
    assert!(registry.get("env").unwrap().custom().is_some());
    registry.register_env("env", EnvSource).unwrap();
    assert!(registry.get("env").unwrap().custom().is_none());
    assert!(matches!(registry.get("env"), Some(RegisteredSource::Env(_))));
}
