# satori_rs_agent

An AI agent framework whose decision logic is verified with Verus.

- `src/` is the verified library: the rule-based planner (intent keywords,
  search queries, number extraction), the calculator and search tools'
  decisions, the tool registry and actor context (`keyed` maps), the task
  graph with its scheduler, the decisions of an agent run, the mock language
  model and the request/reply handling for Ollama, and the framework's error
  texts.
- `app/` wires the library to the async runtime: the `Tool`, `LLM`,
  `Planner` and `Actor` traits, shared registries and graphs behind locks, the
  HTTP client for Ollama, floating-point arithmetic, JSON documents, and
  serializable copies of the library's types.
- `tests/` exercises the library.
