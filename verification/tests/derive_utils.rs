use overwatch::derive::utils::{
    extract_type_from, field_name_to_type_name, service_type_of, ExtractTypeError,
    GenericArgumentModel, PathArgumentsModel, PathSegmentModel, TypeModel, TypePathModel,
};
use overwatch::derive::{
    handed_relay, relay_target, service_position, service_settings_field_identifier_from,
    service_settings_identifier_from, start_target, status_target,
};
use overwatch::overwatch::Error;
use overwatch::services::relay::RelayError;
use overwatch::services::status::ServiceStatusError;

fn path(segments: Vec<(&str, PathArgumentsModel)>) -> TypeModel {
    TypeModel::Path(TypePathModel {
        segments: segments
            .into_iter()
            .map(|(ident, arguments)| PathSegmentModel {
                ident: ident.to_string(),
                arguments,
            })
            .collect(),
    })
}

fn simple(name: &str) -> TypeModel {
    path(vec![(name, PathArgumentsModel::NoArguments)])
}

fn generic(name: &str, args: Vec<GenericArgumentModel>) -> TypeModel {
    path(vec![(name, PathArgumentsModel::AngleBracketed(args))])
}

fn ident_of(ty: &TypeModel) -> String {
    match ty {
        TypeModel::Path(p) => p.segments.last().unwrap().ident.clone(),
        TypeModel::Other(text) => text.clone(),
    }
}

#[test]
fn field_names_become_type_names() {
    assert_eq!(field_name_to_type_name("my_field"), "MyField");
    assert_eq!(
        field_name_to_type_name("some_longer_field_name"),
        "SomeLongerFieldName"
    );
    assert_eq!(field_name_to_type_name("UPPER_CASE_FIELD"), "UpperCaseField");
}

#[test]
fn extracts_first_generic_argument() {
    let ty = generic("Option", vec![GenericArgumentModel::Type(simple("u32"))]);
    assert_eq!(ident_of(&extract_type_from(ty).unwrap()), "u32");

    let ty = generic(
        "Result",
        vec![
            GenericArgumentModel::Type(simple("String")),
            GenericArgumentModel::Type(simple("u32")),
        ],
    );
    assert_eq!(ident_of(&extract_type_from(ty).unwrap()), "String");
}

#[test]
fn type_without_generics_is_kept() {
    let ty = path(vec![
        ("std", PathArgumentsModel::NoArguments),
        ("string", PathArgumentsModel::NoArguments),
        ("String", PathArgumentsModel::NoArguments),
    ]);
    match extract_type_from(ty).unwrap() {
        TypeModel::Path(p) => {
            let idents: Vec<&str> = p.segments.iter().map(|s| s.ident.as_str()).collect();
            assert_eq!(idents, vec!["std", "string", "String"]);
        }
        TypeModel::Other(_) => panic!("a path stays a path"),
    }
}

#[test]
fn only_last_segment_counts() {
    let ty = path(vec![
        (
            "outer",
            PathArgumentsModel::AngleBracketed(vec![GenericArgumentModel::Type(simple("A"))]),
        ),
        (
            "ServiceHandle",
            PathArgumentsModel::AngleBracketed(vec![GenericArgumentModel::Type(simple(
                "PingService",
            ))]),
        ),
    ]);
    assert_eq!(ident_of(&extract_type_from(ty).unwrap()), "PingService");
}

#[test]
fn refused_types() {
    assert_eq!(
        extract_type_from(TypeModel::Other("&str".to_string())).unwrap_err(),
        ExtractTypeError::NotATypePath
    );
    assert_eq!(
        extract_type_from(generic("Empty", vec![])).unwrap_err(),
        ExtractTypeError::NoGenericArguments
    );
    assert_eq!(
        extract_type_from(generic(
            "Cow",
            vec![
                GenericArgumentModel::Other("'a".to_string()),
                GenericArgumentModel::Type(simple("str"))
            ]
        ))
        .unwrap_err(),
        ExtractTypeError::FirstArgumentNotAType
    );
    assert_eq!(
        extract_type_from(path(vec![("Fn", PathArgumentsModel::Parenthesized)])).unwrap_err(),
        ExtractTypeError::ParenthesizedArguments
    );
}

#[test]
fn settings_identifiers() {
    assert_eq!(
        service_settings_identifier_from("AppServices"),
        "AppServicesServiceSettings"
    );
    assert_eq!(
        service_settings_identifier_from("PingPong"),
        "PingPongServiceSettings"
    );
    assert_eq!(
        service_settings_field_identifier_from("database"),
        "database_settings"
    );
}

#[test]
fn dispatch_reaches_the_named_service() {
    let ids = ["ping", "pong"];
    assert_eq!(service_position(&ids, "ping"), Some(0));
    assert_eq!(service_position(&ids, "pong"), Some(1));
    assert_eq!(service_position(&ids, "chat"), None);
    assert_eq!(service_position(&[], "ping"), None);
    assert_eq!(service_position(&["a", "b", "a"], "a"), Some(0));
}

#[test]
fn unknown_services_are_unavailable() {
    let ids = ["ping", "pong"];
    assert_eq!(start_target::<()>(&ids, "pong").unwrap(), 1);
    assert!(matches!(
        start_target::<()>(&ids, "chat"),
        Err(Error::Unavailable { service_id: "chat" })
    ));
    assert_eq!(relay_target(&ids, "ping").unwrap(), 0);
    assert!(matches!(
        relay_target(&ids, "chat"),
        Err(RelayError::Unavailable { service_id: "chat" })
    ));
    assert_eq!(status_target(&ids, "pong").unwrap(), 1);
    assert!(matches!(
        status_target(&ids, "chat"),
        Err(ServiceStatusError::Unavailable { service_id: "chat" })
    ));
}

#[test]
fn relay_is_handed_only_when_held() {
    assert_eq!(handed_relay(Some(4u8)).unwrap(), 4);
    assert!(matches!(handed_relay::<u8>(None), Err(RelayError::AlreadyConnected)));
}

fn wrapper(inner: TypeModel) -> TypeModel {
    generic(
        "OpaqueServiceHandle",
        vec![
            GenericArgumentModel::Type(inner),
            GenericArgumentModel::Type(simple("RuntimeServiceId")),
        ],
    )
}

#[test]
fn service_type_of_a_plain_service() {
    let name = service_type_of(wrapper(simple("DatabaseService"))).unwrap();
    assert_eq!(name.ident, "DatabaseService");
    assert!(name.generics.is_none());
}

#[test]
fn service_type_keeps_type_path_generics() {
    let inner = generic(
        "CacheService",
        vec![
            GenericArgumentModel::Type(simple("String")),
            GenericArgumentModel::Other("'a".to_string()),
            GenericArgumentModel::Type(TypeModel::Other("&str".to_string())),
            GenericArgumentModel::Type(simple("u64")),
        ],
    );
    let name = service_type_of(wrapper(inner)).unwrap();
    assert_eq!(name.ident, "CacheService");
    let kept: Vec<String> = name.generics.unwrap().iter().map(ident_of).collect();
    assert_eq!(kept, vec!["String", "u64"]);
}

#[test]
fn fields_without_a_service_type_are_skipped() {
    assert!(service_type_of(simple("PingService")).is_none());
    assert!(service_type_of(TypeModel::Other("(A, B)".to_string())).is_none());
    assert!(service_type_of(generic("Handle", vec![])).is_none());
    assert!(service_type_of(generic(
        "Handle",
        vec![GenericArgumentModel::Type(TypeModel::Other("&str".to_string()))]
    ))
    .is_none());
    assert!(service_type_of(TypeModel::Path(TypePathModel { segments: vec![] })).is_none());
}
