use case_crawler::category::CaseCategory;
use case_crawler::error::FetchError;
use case_crawler::json::{case_identifiers, lookup, partition_names, JsonValue};

fn named_element(name: &str) -> JsonValue {
    JsonValue::Object(vec![
        ("name".to_string(), JsonValue::Str(name.to_string())),
        ("active".to_string(), JsonValue::Bool(true)),
    ])
}

fn search_payload(ids: &[u64]) -> JsonValue {
    let elements: Vec<JsonValue> = ids
        .iter()
        .map(|id| {
            JsonValue::Object(vec![(
                "namus2Number".to_string(),
                JsonValue::UInt(*id),
            )])
        })
        .collect();
    JsonValue::Object(vec![
        ("count".to_string(), JsonValue::UInt(ids.len() as u64)),
        ("results".to_string(), JsonValue::Array(elements)),
    ])
}

#[test]
fn discovery_names_come_out_in_order() {
    let payload = JsonValue::Array(vec![named_element("Alaska"), named_element("Texas")]);
    let names = partition_names(&payload).expect("well-shaped payload");
    assert_eq!(names, vec!["Alaska".to_string(), "Texas".to_string()]);
}

#[test]
fn discovery_rejects_a_non_array_payload() {
    let payload = JsonValue::Object(vec![("name".to_string(), JsonValue::Str("x".to_string()))]);
    assert_eq!(partition_names(&payload), Err(FetchError::BadResponse));
}

#[test]
fn discovery_rejects_an_element_without_a_name() {
    let payload = JsonValue::Array(vec![
        named_element("Alaska"),
        JsonValue::Object(vec![("label".to_string(), JsonValue::Str("Texas".to_string()))]),
    ]);
    assert_eq!(partition_names(&payload), Err(FetchError::BadResponse));
}

#[test]
fn discovery_rejects_a_non_string_name() {
    let payload = JsonValue::Array(vec![JsonValue::Object(vec![(
        "name".to_string(),
        JsonValue::UInt(3),
    )])]);
    assert_eq!(partition_names(&payload), Err(FetchError::BadResponse));
}

#[test]
fn an_empty_discovery_payload_yields_no_partitions() {
    let payload = JsonValue::Array(Vec::new());
    assert_eq!(partition_names(&payload), Ok(Vec::new()));
}

#[test]
fn search_identifiers_come_out_in_order() {
    let payload = search_payload(&[101, 7, 203]);
    let ids = case_identifiers(&payload).expect("well-shaped payload");
    assert_eq!(ids, vec![101, 7, 203]);
}

#[test]
fn search_rejects_a_payload_without_results() {
    let payload = JsonValue::Object(vec![("count".to_string(), JsonValue::UInt(0))]);
    assert_eq!(case_identifiers(&payload), Err(FetchError::BadResponse));
}

#[test]
fn search_rejects_a_non_numeric_identifier() {
    let payload = JsonValue::Object(vec![(
        "results".to_string(),
        JsonValue::Array(vec![JsonValue::Object(vec![(
            "namus2Number".to_string(),
            JsonValue::OtherNumber,
        )])]),
    )]);
    assert_eq!(case_identifiers(&payload), Err(FetchError::BadResponse));
}

#[test]
fn search_extraction_is_idempotent() {
    let first = case_identifiers(&search_payload(&[5, 6, 7]));
    let second = case_identifiers(&search_payload(&[5, 6, 7]));
    assert_eq!(first, second);
    assert_eq!(first, Ok(vec![5, 6, 7]));
}

#[test]
fn lookup_takes_the_first_binding() {
    let fields = vec![
        ("k".to_string(), JsonValue::UInt(1)),
        ("k".to_string(), JsonValue::UInt(2)),
    ];
    match lookup(&fields, &"k".to_string()) {
        Some(JsonValue::UInt(n)) => assert_eq!(*n, 1),
        _ => panic!("first binding expected"),
    }
    assert!(lookup(&fields, &"missing".to_string()).is_none());
}

#[test]
fn category_labels_are_exact() {
    assert_eq!(CaseCategory::MissingPersons.label(), "MissingPersons");
    assert_eq!(CaseCategory::UnidentifiedPersons.label(), "UnidentifiedPersons");
    assert_eq!(CaseCategory::UnclaimedPersons.label(), "UnclaimedPersons");
}
