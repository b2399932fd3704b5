use api_bench::config::argparse::{validate_list, Arguments};
use api_bench::config::benchmark::{Benchmark, Setup};
use api_bench::config::framework::{contains_name, select_frameworks, FrameworkConfig};

fn args(frameworks: &[&str], benchmarks: &[&str], backends: &[&str], setups: &[&str]) -> Arguments {
    let owned = |v: &[&str]| v.iter().map(|s| s.to_string()).collect::<Vec<String>>();
    Arguments {
        development: false,
        remote: false,
        local: true,
        port: 8983,
        frameworks: owned(frameworks),
        benchmarks: owned(benchmarks),
        backends: owned(backends),
        setups: owned(setups),
    }
}

#[test]
fn validate_list_accepts_listed_value() {
    assert_eq!(validate_list("actix", &["rocket", "actix"]), Ok(()));
}

#[test]
fn validate_list_rejects_unlisted_value_with_message() {
    assert_eq!(
        validate_list("flask", &["rocket", "actix", "jooby"]),
        Err("flask is not a valid value, valid values are rocket, actix, jooby".to_string())
    );
}

#[test]
fn validate_list_rejects_everything_when_nothing_is_valid() {
    assert_eq!(
        validate_list("x", &[]),
        Err("x is not a valid value, valid values are ".to_string())
    );
}

#[test]
fn custom_validate_accepts_valid_arguments() {
    let a = args(&["actix"], &["hello_world"], &["solr"], &["small"]);
    assert_eq!(a.custom_validate(&["actix", "rocket"], &["hello_world"], &["solr"], &["small", "big"]), Ok(()));
}

#[test]
fn custom_validate_accepts_empty_selection() {
    let a = args(&[], &[], &[], &[]);
    assert_eq!(a.custom_validate(&[], &[], &[], &[]), Ok(()));
}

#[test]
fn custom_validate_reports_frameworks_first() {
    let a = args(&["actix", "django"], &["nope"], &["solr"], &["small"]);
    assert_eq!(
        a.custom_validate(&["actix", "rocket"], &["hello_world"], &["solr"], &["small"]),
        Err("django is not a valid value, valid values are actix, rocket".to_string())
    );
}

#[test]
fn custom_validate_reports_first_invalid_setup() {
    let a = args(&["actix"], &["hello_world"], &["solr"], &["small", "huge", "giant"]);
    assert_eq!(
        a.custom_validate(&["actix"], &["hello_world"], &["solr"], &["small", "big"]),
        Err("huge is not a valid value, valid values are small, big".to_string())
    );
}

#[test]
fn custom_validate_reports_backends_before_setups() {
    let a = args(&["actix"], &["hello_world"], &["mongo"], &["huge"]);
    assert_eq!(
        a.custom_validate(&["actix"], &["hello_world"], &["solr"], &["small"]),
        Err("mongo is not a valid value, valid values are solr".to_string())
    );
}

#[test]
fn select_frameworks_keeps_requested_in_available_order() {
    let available = vec!["actix".to_string(), "rocket".to_string(), "jooby".to_string()];
    let requested = vec!["jooby".to_string(), "actix".to_string(), "flask".to_string()];
    assert_eq!(select_frameworks(&available, &requested), vec!["actix".to_string(), "jooby".to_string()]);
}

#[test]
fn select_frameworks_takes_all_when_none_requested() {
    let available = vec!["actix".to_string(), "rocket".to_string()];
    assert_eq!(select_frameworks(&available, &vec![]), available);
}

#[test]
fn contains_name_finds_exact_names_only() {
    let names = vec!["actix".to_string(), "rocket".to_string()];
    assert!(contains_name(&names, &"rocket".to_string()));
    assert!(!contains_name(&names, &"rock".to_string()));
}

#[test]
fn config_structs_hold_their_values() {
    let b = Benchmark { name: "hello".to_string(), path: "/hello_world".to_string() };
    let s = Setup { connections: 64, duration: 30 };
    let f = FrameworkConfig {
        name: "actix".to_string(),
        language: "Rust".to_string(),
        url: "http://actix:8080".to_string(),
        image: "actix".to_string(),
        dockerfile: "frameworks/actix/Dockerfile".to_string(),
        color: "#000000".to_string(),
    };
    assert_eq!(b.clone(), b);
    assert_eq!(s, Setup { connections: 64, duration: 30 });
    assert_eq!(f.clone(), f);
}

#[test]
fn arguments_are_valid_exactly_when_all_names_are_listed() {
    let valid = args(&["a", "b"], &["x"], &["s"], &[]);
    assert!(valid.custom_validate(&["b", "a"], &["x"], &["s", "t"], &[]).is_ok());
    let invalid = args(&["a", "b"], &["x"], &["s"], &["big"]);
    assert!(invalid.custom_validate(&["b", "a"], &["x"], &["s", "t"], &["small"]).is_err());
}
