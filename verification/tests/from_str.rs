use std::str::FromStr as _;

use overwatch::derive::{ParseServiceIdError, RuntimeServiceIds};

/// The runtime service identification of an application with the services `my_service` and
/// `alternative_service`, parsed through the identifications derived from those field names.
#[derive(Debug, Clone, Copy, PartialEq, Eq)]
enum RuntimeServiceId {
    MyService,
    AlternativeService,
}

impl std::str::FromStr for RuntimeServiceId {
    type Err = ParseServiceIdError;

    fn from_str(s: &str) -> Result<Self, Self::Err> {
        let ids = RuntimeServiceIds::from_fields(&["my_service", "alternative_service"])
            .expect("distinct service fields");
        let variants = [RuntimeServiceId::MyService, RuntimeServiceId::AlternativeService];
        ids.from_str(s).map(|i| variants[i])
    }
}

#[test]
fn from_str() {
    let runtime_service_id =
        RuntimeServiceId::from_str("MyService").expect("Should parse service ID.");
    assert_eq!(runtime_service_id, RuntimeServiceId::MyService);

    let alternative_service_id =
        RuntimeServiceId::from_str("AlternativeService").expect("Should parse service ID.");
    assert_eq!(alternative_service_id, RuntimeServiceId::AlternativeService);

    RuntimeServiceId::from_str("non-existing-service").expect_err("Should fail.");
}

#[test]
fn parse_error_keeps_the_input() {
    let ids = RuntimeServiceIds::from_fields(&["my_service"]).unwrap();
    let err = ids.from_str("my_service").unwrap_err();
    assert_eq!(err.input, "my_service");
}

#[test]
fn variant_names_are_pascal_case_and_parse_back() {
    let ids = RuntimeServiceIds::from_fields(&["database", "api_gateway", "user_cache"]).unwrap();
    assert_eq!(ids.len(), 3);
    assert_eq!(ids.variant_name(0), "Database");
    assert_eq!(ids.variant_name(1), "ApiGateway");
    assert_eq!(ids.variant_name(2), "UserCache");
    for i in 0..ids.len() {
        assert_eq!(ids.from_str(ids.variant_name(i)).unwrap(), i);
    }
    assert_eq!(ids.from_str("apiGateway").unwrap_err().input, "apiGateway");
}

#[test]
fn colliding_variant_names_are_refused() {
    let err = RuntimeServiceIds::from_fields(&["a_service", "other", "a__service"]).unwrap_err();
    assert_eq!(err.variant, "AService");
}

#[test]
fn no_services_parse_nothing() {
    let ids = RuntimeServiceIds::from_fields(&[]).unwrap();
    assert_eq!(ids.len(), 0);
    assert!(ids.from_str("").is_err());
}

#[test]
fn identifications_from_variant_names() {
    let ids = RuntimeServiceIds::from_variant_names(vec!["Ping".to_string(), "Pong".to_string()])
        .unwrap();
    assert_eq!(ids.variant_name(1), "Pong");
    assert_eq!(ids.from_str("Ping").unwrap(), 0);
    let err = RuntimeServiceIds::from_variant_names(vec![
        "Ping".to_string(),
        "Pong".to_string(),
        "Chat".to_string(),
        "Pong".to_string(),
    ])
    .unwrap_err();
    assert_eq!(err.variant, "Pong");
}
