# whitt

The decision logic of a YAML-driven benchmark and workflow engine for local
LLM servers, written in Verus and verified.

`src/` holds the verified library:

- workflow files: the YAML text read as a document (`workflow_text`), and
  steps, dependencies, hooks and iteration values read from it
  (`workflow_file`, `workflow_config`), step order
  (`step_order`), iteration caps and retry rules (`workflow`), the
  between-step decisions of a run (`dispatch`), the workflow loop as a
  state machine (`run_loop`), and the hook, load, retry and streaming
  decisions of one step (`step_execution`, `streaming`);
- models: tier-diverse selection (`model_selector`), discovery filters and
  paths (`discovery`), name resolution (`model_resolution`) and generated
  benchmark YAML (`yaml_generator`);
- resources: size strings (`resource_size`), admission verdicts
  (`admission`), telemetry (`telemetry`), concurrency (`concurrency`) and
  server checks (`server`);
- the llama.cpp HTTP backend: request retries, error texts, health
  verdicts and the wait for a load or unload to take effect
  (`llama_backend`);
- text: templates, output cleaning, detail pages, persistence state, the
  mock backend and the tool filter.

`app/` is the ordinary Rust around it: YAML and JSON input, files,
processes, the asynchronous backend and tool traits, the loops that carry
out what the state machines decide (`app/runner.rs`, `app/benchmark_runner.rs`),
and the reports that print floating-point figures.
