use api_bench::solr::{
    after_probe, before_probe, generate_test_data, local_solr_url, solr_wait_deadline, test_entity,
    ProbeOutcome, WaitAction,
};

#[test]
fn local_solr_url_names_the_port() {
    assert_eq!(local_solr_url(8983), "http://127.0.0.1:8983");
    assert_eq!(local_solr_url(0), "http://127.0.0.1:0");
}

#[test]
fn waiting_gives_up_only_after_the_deadline() {
    assert_eq!(before_probe(1000, 999), WaitAction::Probe);
    assert_eq!(before_probe(1000, 1000), WaitAction::Probe);
    assert_eq!(before_probe(1000, 1001), WaitAction::GiveUp);
}

#[test]
fn probing_ends_or_retries_after_five_seconds() {
    assert_eq!(after_probe(true), ProbeOutcome::Ready);
    assert_eq!(after_probe(false), ProbeOutcome::Retry(5));
}

#[test]
fn wait_deadline_is_thirty_seconds_later() {
    assert_eq!(solr_wait_deadline(1_000, 30), Some(31_000));
    assert_eq!(solr_wait_deadline(-5_000, 2), Some(-3_000));
    assert_eq!(solr_wait_deadline(i64::MAX, 30), None);
    assert_eq!(solr_wait_deadline(0, i64::MAX / 100), None);
}

#[test]
fn test_entity_is_built_from_its_values() {
    let e = test_entity(
        12,
        vec![1, 2],
        &vec![vec![0xab, 0x01], vec![]],
        &vec![7, 900],
        &vec![vec![0xff], vec![0x00, 0x10]],
    );
    assert_eq!(e.id, "12");
    assert_eq!(e.document_type, 1);
    assert_eq!(e.int_array, vec![1, 2]);
    assert_eq!(e.string_array, vec!["ab01".to_string(), String::new()]);
    assert_eq!(e.child_objects.len(), 2);
    assert_eq!(e.child_objects[0].id, "12_0");
    assert_eq!(e.child_objects[0].name, "ff");
    assert_eq!(e.child_objects[0].number, 7);
    assert_eq!(e.child_objects[1].id, "12_1");
    assert_eq!(e.child_objects[1].name, "0010");
    assert_eq!(e.child_objects[1].number, 900);
}

#[test]
fn generated_test_data_has_the_promised_shape() {
    let data = generate_test_data();
    assert_eq!(data.len(), 100);
    for (i, e) in data.iter().enumerate() {
        assert_eq!(e.id, i.to_string());
        assert_eq!(e.document_type, 1);
        assert_eq!(e.int_array.len(), 10);
        assert!(e.int_array.iter().all(|&v| v < 10));
        assert_eq!(e.string_array.len(), 10);
        for s in &e.string_array {
            assert_eq!(s.len(), 32);
            assert!(s.chars().all(|c| c.is_ascii_hexdigit() && !c.is_ascii_uppercase()));
        }
        assert_eq!(e.child_objects.len(), 10);
        for (j, c) in e.child_objects.iter().enumerate() {
            assert_eq!(c.id, format!("{i}_{j}"));
            assert!(c.number < 1000);
            assert_eq!(c.name.len(), 32);
        }
    }
}

#[test]
fn generated_ids_are_distinct() {
    let data = generate_test_data();
    let mut ids: Vec<&str> = data.iter().map(|e| e.id.as_str()).collect();
    ids.sort();
    ids.dedup();
    assert_eq!(ids.len(), 100);
    let mut child_ids: Vec<&str> = data[42].child_objects.iter().map(|c| c.id.as_str()).collect();
    child_ids.dedup();
    assert_eq!(child_ids.len(), 10);
}
