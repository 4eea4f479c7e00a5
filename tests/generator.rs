use rusoto_codegen::call_state::{accepts_timeout, poll_step, Phase, PollAction, PollEvent};
use rusoto_codegen::declare::{
    escape_doc, generate_declaration, generate_types, DeclKind, FieldHint, Primitive,
};
use rusoto_codegen::errors::{generate_error_types, ErrorVariant};
use rusoto_codegen::generate::{generate, ClientField};
use rusoto_codegen::model::{MemberRef, Operation, Service, Shape, ShapeBody};
use rusoto_codegen::names::{
    capitalize_first, error_type_name, generate_field_name, mutate_type_name, remove_underscores,
};
use rusoto_codegen::protocol::{select_protocol, ErrorFamily, Protocol, TimestampRepr};
use rusoto_codegen::reach::filter_types;

fn shape(name: &str, body: ShapeBody) -> Shape {
    Shape { name: name.to_string(), body, documentation: None, exception: false }
}

fn member(name: &str, target: usize, required: bool) -> MemberRef {
    MemberRef { name: name.to_string(), target, documentation: None, deprecated: false, required }
}

fn service(protocol: &str, shapes: Vec<Shape>, operations: Vec<Operation>) -> Service {
    Service {
        protocol: protocol.to_string(),
        service_full_name: "Thing Service".to_string(),
        service_abbreviation: None,
        client_type_name: "ThingClient".to_string(),
        shapes,
        operations,
    }
}

fn op(name: &str, input: Option<usize>, output: Option<usize>) -> Operation {
    Operation { name: name.to_string(), input, output }
}

#[test]
fn capitalize_first_test() {
    assert_eq!(capitalize_first("a &str test"), "A &str test".to_owned());
    assert_eq!(capitalize_first(&"a String test".to_owned()), "A String test".to_owned());
}

#[test]
fn capitalize_first_empty_and_simple() {
    assert_eq!(capitalize_first(""), "");
    assert_eq!(capitalize_first("a test"), "A test");
}

#[test]
fn field_name_is_snake_case() {
    assert_eq!(generate_field_name("MemberName"), "member_name");
    assert_eq!(generate_field_name("id"), "id");
}

#[test]
fn reserved_field_names_are_escaped() {
    assert_eq!(generate_field_name("Type"), "type_");
    assert_eq!(generate_field_name("type"), "type_");
    assert_eq!(generate_field_name("Return"), "return_");
    assert_ne!(generate_field_name("Type"), "type");
}

#[test]
fn collision_table_names() {
    let error = mutate_type_name("Error");
    let cancel = mutate_type_name("CancelSpotFleetRequests");
    assert_eq!(error, "S3Error");
    assert_eq!(cancel, "EC2CancelSpotFleetRequests");
    assert_ne!(error, cancel);
    assert_eq!(mutate_type_name("GetThingRequest"), "GetThingRequest");
    assert_eq!(mutate_type_name(&mutate_type_name("GetThingRequest")), "GetThingRequest");
}

#[test]
fn type_names_are_capitalized_without_underscores() {
    assert_eq!(mutate_type_name("foo_bar"), "Foobar");
    assert_eq!(remove_underscores("a_b__c"), "abc");
    assert_eq!(error_type_name("bad_thing"), "BadthingError");
}

#[test]
fn doc_text_is_escaped() {
    assert_eq!(escape_doc("say \"hi\" \\ bye"), "say \\\"hi\\\" \\\\ bye");
}

#[test]
fn ec2_selects_query_pair() {
    assert_eq!(select_protocol("ec2"), select_protocol("query"));
    assert_eq!(select_protocol("query"), Some((Protocol::Query, ErrorFamily::Xml)));
    assert_eq!(select_protocol("json"), Some((Protocol::Json, ErrorFamily::Json)));
    assert_eq!(select_protocol("rest-json"), Some((Protocol::RestJson, ErrorFamily::Json)));
    assert_eq!(select_protocol("rest-xml"), Some((Protocol::RestXml, ErrorFamily::Xml)));
    assert_eq!(select_protocol("smithy"), None);
}

#[test]
fn unknown_protocol_generates_nothing() {
    let s = service("smithy", vec![shape("S", ShapeBody::String)], vec![]);
    assert!(generate(&s).is_none());
}

fn alias_of(body: ShapeBody, protocol: Protocol) -> DeclKind {
    let s = service("json", vec![shape("P", body)], vec![]);
    generate_declaration(&s, 0, false, false, protocol).kind
}

#[test]
fn primitive_kinds_declare_aliases() {
    let cases = vec![
        (ShapeBody::Blob, Primitive::Bytes),
        (ShapeBody::Boolean, Primitive::Bool),
        (ShapeBody::Double, Primitive::Float64),
        (ShapeBody::Float, Primitive::Float32),
        (ShapeBody::Integer, Primitive::Int32),
        (ShapeBody::Long, Primitive::Int64),
        (ShapeBody::String, Primitive::Text),
    ];
    for (body, prim) in cases {
        match alias_of(body, Protocol::Json) {
            DeclKind::Alias(p) => assert_eq!(p, prim),
            _ => panic!("expected an alias"),
        }
    }
}

#[test]
fn timestamp_follows_protocol() {
    match alias_of(ShapeBody::Timestamp, Protocol::Json) {
        DeclKind::Alias(p) => assert_eq!(p, Primitive::Timestamp(TimestampRepr::EpochSeconds)),
        _ => panic!("expected an alias"),
    }
    match alias_of(ShapeBody::Timestamp, Protocol::RestXml) {
        DeclKind::Alias(p) => assert_eq!(p, Primitive::Timestamp(TimestampRepr::Text)),
        _ => panic!("expected an alias"),
    }
}

#[test]
fn list_map_and_structure_kinds() {
    let s = service(
        "json",
        vec![
            shape("item_name", ShapeBody::String),
            shape("Items", ShapeBody::List(0)),
            shape("Tags", ShapeBody::Mapping(0, 0)),
            shape("Empty", ShapeBody::Structure(vec![])),
            shape("Full", ShapeBody::Structure(vec![member("Name", 0, true)])),
        ],
        vec![],
    );
    match generate_declaration(&s, 1, false, false, Protocol::Json).kind {
        DeclKind::Sequence(e) => assert_eq!(e, "Itemname"),
        _ => panic!("expected a sequence"),
    }
    match generate_declaration(&s, 2, false, false, Protocol::Json).kind {
        DeclKind::Mapping(k, v) => {
            assert_eq!(k, "Itemname");
            assert_eq!(v, "Itemname");
        }
        _ => panic!("expected a mapping"),
    }
    assert!(matches!(generate_declaration(&s, 3, false, false, Protocol::Json).kind, DeclKind::Marker));
    match generate_declaration(&s, 4, false, false, Protocol::Json).kind {
        DeclKind::Record(fields) => {
            assert_eq!(fields.len(), 1);
            assert_eq!(fields[0].name, "name");
            assert_eq!(fields[0].field_type, "Itemname");
            assert!(!fields[0].optional);
        }
        _ => panic!("expected a record"),
    }
}

#[test]
fn exception_shapes_get_no_declaration() {
    let mut bad = shape("BadThing", ShapeBody::Structure(vec![]));
    bad.exception = true;
    let s = service("json", vec![shape("A", ShapeBody::String), bad, shape("B", ShapeBody::Long)], vec![]);
    let decls = generate_types(&s, Protocol::Json);
    assert_eq!(decls.len(), 2);
    assert_eq!(decls[0].shape, 0);
    assert_eq!(decls[1].shape, 2);
    assert_eq!(decls[1].name, "B");
    let errors = generate_error_types(&s, ErrorFamily::Json);
    assert_eq!(errors.variants.len(), 4);
    match &errors.variants[0] {
        ErrorVariant::Exception(n) => assert_eq!(n, "BadThingError"),
        _ => panic!("expected an exception variant"),
    }
    assert!(matches!(errors.variants[3], ErrorVariant::Unknown));
}

#[test]
fn deprecated_member_is_dropped() {
    let mut old = member("OldName", 0, false);
    old.deprecated = true;
    let s = service(
        "json",
        vec![shape("S", ShapeBody::String), shape("R", ShapeBody::Structure(vec![old, member("NewName", 0, false)]))],
        vec![],
    );
    match generate_declaration(&s, 1, false, false, Protocol::Json).kind {
        DeclKind::Record(fields) => {
            assert_eq!(fields.len(), 1);
            assert_eq!(fields[0].name, "new_name");
        }
        _ => panic!("expected a record"),
    }
}

#[test]
fn serde_hints_for_blob_and_optional_boolean() {
    let s = service(
        "json",
        vec![
            shape("Data", ShapeBody::Blob),
            shape("Flag", ShapeBody::Boolean),
            shape("R", ShapeBody::Structure(vec![member("Body", 0, true), member("On", 1, false)])),
        ],
        vec![op("Put", Some(2), None)],
    );
    let decls = generate_types(&s, Protocol::Json);
    let record = &decls[2];
    assert_eq!(record.attributes.unwrap().serialize, true);
    assert_eq!(record.attributes.unwrap().deserialize, false);
    match &record.kind {
        DeclKind::Record(fields) => {
            assert_eq!(fields[0].hint, FieldHint::Blob);
            assert_eq!(fields[0].wire_name, Some("Body".to_string()));
            assert_eq!(fields[1].hint, FieldHint::SkipIfAbsent);
        }
        _ => panic!("expected a record"),
    }
}

#[test]
fn reachability_sets_and_cycles() {
    let s = service(
        "json",
        vec![
            shape("In", ShapeBody::Structure(vec![member("Node", 2, false)])),
            shape("Out", ShapeBody::Structure(vec![member("Node", 2, false)])),
            shape("Node", ShapeBody::Structure(vec![member("Next", 2, false)])),
            shape("Lonely", ShapeBody::String),
        ],
        vec![op("Send", Some(0), None), op("Fetch", None, Some(1))],
    );
    let (ser, de) = filter_types(&s);
    assert_eq!(ser, vec![true, false, true, false]);
    assert_eq!(de, vec![false, true, true, false]);
}

#[test]
fn end_to_end_json_service() {
    let s = service(
        "json",
        vec![
            shape("String", ShapeBody::String),
            shape("GetThingRequest", ShapeBody::Structure(vec![member("id", 0, true), member("type", 0, false)])),
            shape("GetThingResult", ShapeBody::Structure(vec![member("value", 0, true)])),
        ],
        vec![op("GetThing", Some(1), Some(2))],
    );
    assert!(s.is_well_formed());
    let m = generate(&s).unwrap();
    assert_eq!(m.protocol, Protocol::Json);
    let request = &m.declarations[1];
    assert_eq!(request.name, "GetThingRequest");
    match &request.kind {
        DeclKind::Record(fields) => {
            assert_eq!(fields.len(), 2);
            assert_eq!(fields[0].name, "id");
            assert!(!fields[0].optional);
            assert_eq!(fields[0].field_type, "String");
            assert_eq!(fields[1].name, "type_");
            assert!(fields[1].optional);
        }
        _ => panic!("expected a record"),
    }
    match &m.declarations[2].kind {
        DeclKind::Record(fields) => {
            assert_eq!(fields.len(), 1);
            assert_eq!(fields[0].name, "value");
            assert!(!fields[0].optional);
        }
        _ => panic!("expected a record"),
    }
    assert_eq!(
        m.client.fields,
        vec![ClientField::CredentialsProvider, ClientField::Region, ClientField::Dispatcher]
    );
    assert_eq!(
        m.client.constructor_params,
        vec![ClientField::Dispatcher, ClientField::CredentialsProvider, ClientField::Region]
    );
    assert_eq!(m.client.service_name, "Thing Service");
    assert_eq!(m.errors.variants.len(), 3);
    assert!(matches!(m.errors.variants[0], ErrorVariant::HttpDispatch));
    assert!(matches!(m.errors.variants[1], ErrorVariant::Credentials));
    assert!(matches!(m.errors.variants[2], ErrorVariant::Unknown));
}

#[test]
fn ill_formed_service_is_detected() {
    let s = service("json", vec![shape("L", ShapeBody::List(5))], vec![]);
    assert!(!s.is_well_formed());
}

#[test]
fn call_phases_step() {
    assert_eq!(
        poll_step(Phase::SignAndDispatch, PollEvent::DispatchResponse),
        Some((Phase::RunningResponseHandler, PollAction::StartHandler))
    );
    assert_eq!(
        poll_step(Phase::SignAndDispatch, PollEvent::CredentialsFailed),
        Some((Phase::Finished, PollAction::FailCredentials))
    );
    assert_eq!(
        poll_step(Phase::RunningResponseHandler, PollEvent::HandlerReady),
        Some((Phase::Finished, PollAction::Complete))
    );
    assert_eq!(poll_step(Phase::Finished, PollEvent::HandlerReady), None);
    assert!(accepts_timeout(Phase::SignAndDispatch));
    assert!(!accepts_timeout(Phase::RunningResponseHandler));
}
