use api_bench::backend::ImageType;
use api_bench::benchmark::{benchmark_runner, concat_logs, oha_command};
use api_bench::config::benchmark::{Benchmark, Setup};
use api_bench::config::framework::FrameworkConfig;

#[test]
fn oha_command_line() {
    let setup = Setup { connections: 256, duration: 60 };
    assert_eq!(
        oha_command(&setup, "http://actix:8080", "/json_serialization?document_type=1"),
        "oha -z 60s -c 256 --latency-correction --disable-keepalive --no-tui -j http://actix:8080/json_serialization?document_type=1"
    );
}

#[test]
fn benchmark_runner_runs_oha() {
    let framework = FrameworkConfig {
        name: "actix".to_string(),
        language: "Rust".to_string(),
        url: "http://actix:8080".to_string(),
        image: "actix".to_string(),
        dockerfile: "Dockerfile".to_string(),
        color: "red".to_string(),
    };
    let benchmark = Benchmark { name: "hello".to_string(), path: "/hello_world".to_string() };
    let c = benchmark_runner(ImageType::Local, &framework, &benchmark, &Setup { connections: 1, duration: 2 });
    let command: Vec<String> = "oha -z 2s -c 1 --latency-correction --disable-keepalive --no-tui -j http://actix:8080/hello_world"
        .split(' ')
        .map(|s| s.to_string())
        .collect();
    assert_eq!(c.command, Some(command));
    assert_eq!(c.image, "restful_api_oha:latest");
}

#[test]
fn logs_are_concatenated_in_order() {
    let chunks = vec![b"{\"a\":".to_vec(), vec![], b"1}".to_vec()];
    assert_eq!(concat_logs(&chunks), b"{\"a\":1}".to_vec());
    assert_eq!(concat_logs(&vec![]), Vec::<u8>::new());
}
