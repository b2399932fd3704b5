# api_bench

The verified core of a benchmark of OpenAPI-capable RESTful web frameworks.

- `src/` is the library, proved with Verus: argument validation
  (`config::argparse`), the benchmark and framework configuration
  (`config::benchmark`, `config::framework`), the containers the benchmark
  runs (`backend`), the load generator's command line and log handling
  (`benchmark`), the Solr backend's test data and wait logic (`solr`), the
  request handling of the services under test (`api`), and the text
  functions they share (`text`).
- `app/` is the program around it: command-line parsing, YAML
  configuration files, Docker, Solr and the Actix service.
- `tests/` runs the library on concrete values.
