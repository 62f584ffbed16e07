//! Concrete instances of the laws that src/ proves.

use secrets_rs::{EnvSource, FileSource, Secret, Source, SourceError, SourceRegistry, Urn};

#[test]
fn parse_of_text_round_trips_on_a_concrete_urn() {
    let u = Urn {
        source_id: "aws.sm-v2/prod".to_string(),
        name: "db:password".to_string(),
    };
    let back = Urn::parse(&u.to_string()).unwrap();
    assert_eq!(back, u);
}

#[test]
fn text_of_parse_differs_only_in_prefix_case() {
    let s = "URN:secrets-RS:env:KeY";
    let u = Urn::parse(s).unwrap();
    let t = u.to_string();
    assert_eq!(t.len(), s.len());
    assert!(t[..15].eq_ignore_ascii_case(&s[..15]));
    assert_eq!(&t[15..], &s[15..]);
}

#[test]
fn get_after_register_finds_the_new_source_only_there() {
    struct One;
    impl Source for One {
        fn get(&self, _name: &str) -> Result<Vec<u8>, SourceError> {
            Ok(vec![1])
        }
    }
    let mut r = SourceRegistry::new();
    r.register("x", One).unwrap();
    assert_eq!(r.get("x").unwrap().custom().unwrap().get("n"), Ok(vec![1]));
    assert!(r.get("env").unwrap().custom().is_none());
}

#[test]
fn absolute_name_ignores_any_base() {
    for src in [FileSource::new(), FileSource::with_base("/b"), FileSource::with_base("rel")] {
        assert_eq!(src.resolve("/abs/k"), "/abs/k");
    }
}

#[test]
fn env_string_reads_back_what_was_written() {
    let written = "pä55:wørd";
    let bytes = EnvSource.lookup_result("K", Some(written.to_string()));
    let mut s: Secret<String> = Secret::new("urn:secrets-rs:env:K").unwrap();
    s.complete_bind(bytes).unwrap();
    assert_eq!(s.value().unwrap(), written);
}

#[test]
fn masked_string_hides_content() {
    let mut a: Secret<String> = Secret::new("urn:secrets-rs:env:K").unwrap();
    let mut b: Secret<String> = Secret::new("urn:secrets-rs:env:K").unwrap();
    a.complete_bind(Ok(b"hunter2".to_vec())).unwrap();
    b.complete_bind(Ok(b"letmein".to_vec())).unwrap();
    assert_eq!(a.masked_value(), b.masked_value());
    assert!(!a.masked_value().contains("hunter2"));
}

#[test]
fn json_size_is_compact_text_length() {
    let mut s: Secret<serde_json::Value> = Secret::new("urn:secrets-rs:env:K").unwrap();
    s.complete_bind(Ok(b"{ \"a\" : 1 }".to_vec())).unwrap();
    let expected: serde_json::Value = serde_json::from_str("{\"a\":1}").unwrap();
    assert_eq!(s.value().unwrap(), &expected);
    assert_eq!(s.masked_value(), "urn:secrets-rs:env:K [json:7]");
}

#[test]
fn masked_value_shows_only_size_for_every_type() {
    let mut a: Secret<Vec<u8>> = Secret::new("urn:secrets-rs:env:K").unwrap();
    let mut b: Secret<Vec<u8>> = Secret::new("urn:secrets-rs:env:K").unwrap();
    a.complete_bind(Ok(vec![1, 2, 3])).unwrap();
    b.complete_bind(Ok(vec![9, 9, 9])).unwrap();
    assert_eq!(a.masked_value(), b.masked_value());
    let mut c: Secret<serde_json::Value> = Secret::new("urn:secrets-rs:env:K").unwrap();
    let mut d: Secret<serde_json::Value> = Secret::new("urn:secrets-rs:env:K").unwrap();
    c.complete_bind(Ok(b"[1,2]".to_vec())).unwrap();
    d.complete_bind(Ok(b"\"abc\"".to_vec())).unwrap();
    assert_eq!(c.masked_value(), d.masked_value());
}

#[test]
fn case_change_in_prefix_keeps_the_urn_and_elsewhere_changes_it() {
    let u = Urn::parse("urn:secrets-rs:env:Key").unwrap();
    assert_eq!(Urn::parse("URN:Secrets-RS:env:Key").unwrap(), u);
    let v = Urn::parse("urn:secrets-rs:ENV:Key").unwrap();
    assert_ne!(v, u);
    let w = Urn::parse("urn:secrets-rs:env:kEY").unwrap();
    assert_ne!(w, u);
}

#[test]
fn binds_keep_the_urn_and_the_last_stored_value() {
    let mut s: Secret<String> = Secret::new("URN:secrets-rs:env:K").unwrap();
    let urn = s.urn().clone();
    assert!(s.complete_bind(Err(SourceError::Other("down".to_string()))).is_err());
    assert!(s.value().is_err());
    s.complete_bind(Ok(b"one".to_vec())).unwrap();
    assert!(s.complete_bind(Ok(vec![0xff])).is_err());
    assert!(s.complete_bind(Err(SourceError::NotFound { name: "K".to_string() })).is_err());
    assert_eq!(s.value().unwrap(), "one");
    s.complete_bind(Ok(b"two".to_vec())).unwrap();
    assert_eq!(s.value().unwrap(), "two");
    assert_eq!(s.urn(), &urn);
    let again: Secret<String> = Secret::new(&s.urn().to_string()).unwrap();
    assert_eq!(again.urn(), s.urn());
}
