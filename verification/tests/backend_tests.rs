use api_bench::backend::{
    backend_plan, framework_container, has_network, runner_container, ImageType, NETWORK_NAME,
    OHA_CONTAINER_NAME,
};

fn strings(v: &[&str]) -> Vec<String> {
    v.iter().map(|s| s.to_string()).collect()
}

#[test]
fn get_tag_of_local_and_remote() {
    assert_eq!(ImageType::Local.get_tag(), "latest");
    assert_eq!(ImageType::Remote("8.11.2".to_string()).get_tag(), "8.11.2");
}

#[test]
fn development_backend_has_three_containers() {
    let plan = backend_plan("/work", 8983, true);
    let names: Vec<&str> = plan.iter().map(|c| c.name.as_str()).collect();
    assert_eq!(names, vec!["restful_api_zookeeper", "restful_api_solr", "restful_api_varnish"]);
}

#[test]
fn full_backend_adds_speedbumps() {
    let plan = backend_plan("/work", 9000, false);
    assert_eq!(plan.len(), 5);
    let fast = &plan[3];
    assert_eq!(fast.name, "restful_api_speedbump_fast");
    assert_eq!(fast.image, "kffl/speedbump:v1.1.0");
    assert_eq!(fast.hostname, Some("speedbump_fast".to_string()));
    assert_eq!(fast.command, Some(strings(&["--latency", "20ms", "--port", "8984", "varnish:8983"])));
    assert_eq!(plan[4].command, Some(strings(&["--latency", "200ms", "--port", "8984", "varnish:8983"])));
}

#[test]
fn backend_services_are_configured() {
    let plan = backend_plan("/home/bench", 8080, true);
    let zk = &plan[0];
    assert_eq!(zk.image, "zookeeper:3.4");
    assert_eq!(zk.image_type, ImageType::Remote("3.4".to_string()));
    assert_eq!(zk.volumes, strings(&["/home/bench/benchmark_server/start_zk.sh:/start_zk.sh"]));
    assert_eq!(zk.command, Some(strings(&["/start_zk.sh"])));
    assert_eq!(
        zk.env,
        strings(&["ZOO_MY_ID=1", "ZOO_PORT=2181", "ZOO_SERVERS=server.1=zookeeper:2888:3888"])
    );
    let solr = &plan[1];
    assert_eq!(solr.image, "solr:8.11.2");
    assert_eq!(solr.memory, Some(1_000_000_000));
    assert_eq!(solr.env, strings(&["ZK_HOST=zookeeper", "SOLR_JAVA_MEM=-Xms512m -Xmx512m"]));
    let varnish = &plan[2];
    assert_eq!(varnish.image, "varnish:6.0");
    assert_eq!(varnish.published, Some((80, 8080)));
    assert_eq!(varnish.volumes, strings(&["/home/bench/benchmark_server/varnish.vcl:/etc/varnish/default.vcl"]));
    assert_eq!(varnish.command, None);
}

#[test]
fn framework_container_is_named_after_its_image() {
    let c = framework_container("actix", ImageType::Local, "http://varnish");
    assert_eq!(c.name, "actix");
    assert_eq!(c.image_name, "actix");
    assert_eq!(c.image, "actix:latest");
    assert_eq!(c.hostname, Some("actix".to_string()));
    assert_eq!(c.env, strings(&["BENCHMARK_HOST=http://varnish"]));
}

#[test]
fn runner_container_splits_its_command() {
    let c = runner_container(ImageType::Remote("v2".to_string()), "oha -z 10s http://x/");
    assert_eq!(c.name, OHA_CONTAINER_NAME);
    assert_eq!(c.image, "restful_api_oha:v2");
    assert_eq!(c.hostname, None);
    assert_eq!(c.command, Some(strings(&["oha", "-z", "10s", "http://x/"])));
}

#[test]
fn has_network_compares_names() {
    let names = vec![None, Some("bridge".to_string()), Some(NETWORK_NAME.to_string())];
    assert!(has_network(&names, NETWORK_NAME));
    assert!(!has_network(&names, "host"));
    assert!(!has_network(&vec![None], "bridge"));
}

#[test]
fn development_plan_is_prefix_of_full_plan() {
    let dev = backend_plan("/srv", 8983, true);
    let full = backend_plan("/srv", 8983, false);
    let dev_names: Vec<String> = dev.iter().map(|c| c.name.clone()).collect();
    let full_names: Vec<String> = full.iter().take(3).map(|c| c.name.clone()).collect();
    assert_eq!(dev_names, full_names);
    for (a, b) in dev.iter().zip(full.iter()) {
        assert_eq!(a.image, b.image);
        assert_eq!(a.volumes, b.volumes);
        assert_eq!(a.env, b.env);
    }
}

#[test]
fn backend_container_names_are_distinct() {
    let full = backend_plan("/srv", 8983, false);
    for i in 0..full.len() {
        for j in (i + 1)..full.len() {
            assert_ne!(full[i].name, full[j].name);
        }
    }
}
