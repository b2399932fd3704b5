use api_bench::api::{
    anonymize, can_anonymize, require_document_type, select_url, Config, Entity, SubEntity,
    DEFAULT_BENCHMARK_HOST, MISSING_DOCUMENT_TYPE,
};

fn child(id: &str, number: Option<i32>) -> SubEntity {
    SubEntity { id: id.to_string(), name: Some(format!("name_{id}")), number }
}

fn doc(id: &str, children: Option<Vec<SubEntity>>) -> Entity {
    Entity {
        id: id.to_string(),
        document_type: Some(1),
        string_array: Some(vec!["ab".to_string()]),
        int_array: Some(vec![3, 4]),
        child_objects: children,
    }
}

#[test]
fn anonymize_zeroes_small_numbers() {
    let docs = vec![
        doc("0", Some(vec![child("0_0", Some(99)), child("0_1", Some(100)), child("0_2", Some(-5))])),
        doc("1", Some(vec![child("1_0", Some(0)), child("1_1", Some(999))])),
    ];
    assert!(can_anonymize(&docs));
    let out = anonymize(docs.clone());
    let numbers: Vec<Vec<Option<i32>>> = out
        .iter()
        .map(|d| d.child_objects.as_ref().unwrap().iter().map(|c| c.number).collect())
        .collect();
    assert_eq!(numbers, vec![vec![Some(0), Some(100), Some(0)], vec![Some(0), Some(999)]]);
    assert_eq!(out[0].id, "0");
    assert_eq!(out[0].child_objects.as_ref().unwrap()[1].name, Some("name_0_1".to_string()));
    assert_eq!(out[1].int_array, Some(vec![3, 4]));
}

#[test]
fn anonymize_twice_changes_nothing_more() {
    let docs = vec![doc("7", Some(vec![child("7_0", Some(12)), child("7_1", Some(512))]))];
    let once = anonymize(docs);
    assert!(can_anonymize(&once));
    let twice = anonymize(once.clone());
    assert_eq!(twice, once);
}

#[test]
fn anonymize_of_nothing_is_nothing() {
    assert!(can_anonymize(&vec![]));
    assert_eq!(anonymize(vec![]), vec![]);
}

#[test]
fn cannot_anonymize_without_children_or_numbers() {
    assert!(!can_anonymize(&vec![doc("0", None)]));
    assert!(!can_anonymize(&vec![doc("0", Some(vec![child("0_0", Some(1)), child("0_1", None)]))]));
    assert!(can_anonymize(&vec![doc("0", Some(vec![]))]));
}

#[test]
fn select_url_for_document_type() {
    assert_eq!(
        select_url("http://varnish", "test_data", 1),
        "http://varnish/solr/test_data/select?fl=id,document_type,int_array,string_array,child_objects,name,number,[child]&q=*:*&rows=100&fq=document_type:1"
    );
    assert!(select_url("http://localhost:25900", "performance", -12).ends_with("fq=document_type:-12"));
    assert!(select_url("h", "c", 0).starts_with("h/solr/c/select?"));
}

#[test]
fn document_type_is_required() {
    assert_eq!(require_document_type(Some(3)).unwrap(), 3);
    let err = require_document_type(None).unwrap_err();
    assert_eq!(err.message, "Required parameter not found or incorrect: document_type");
    assert_eq!(err.message, MISSING_DOCUMENT_TYPE);
}

#[test]
fn config_falls_back_to_default_host() {
    assert_eq!(Config::with_benchmark_host(None).benchmark_host, DEFAULT_BENCHMARK_HOST);
    assert_eq!(Config::with_benchmark_host(None).benchmark_host, "http://localhost:8983");
    assert_eq!(Config::with_benchmark_host(Some("http://varnish".to_string())).benchmark_host, "http://varnish");
}
