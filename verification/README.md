# arti-pipes

Executor-agnostic prompt pipelines: chain LLM prompts through nodes, stream their tokens,
branch on results and let models call tools.

The crate is in two parts.

- `src/` is the verified library. It holds the decisions of the system, each with a proved
  contract:
  - `transport::engine`: how a streamed chat completion becomes tokens and a final output
    (UTF-8 decoding of body chunks, line framing, per-channel token numbering, reasoning
    gating, fallback to reasoning), with laws on chunk boundaries and on the final text;
  - `llm_executors::types`: the framing of server-sent event lines and the request data;
  - `llm_executors::qwen`: the Qwen builder, endpoint URL, request and stream options;
  - `transport`: request descriptions and their `Authorization` header;
  - `tool_registry`: tools held by name, with the laws of registration and lookup;
  - `pipeline`: which context each node of a run starts from;
  - `error`, `executor`, `prompt`, `node`, `tool`: the values that flow between them.
- `app/` is the async runtime around it: the traits that users implement (`PromptExecutor`,
  `Prompt`, `Node`, `NodeRunner`, `Tool`), the pipeline driver, the tool execution across the
  JSON boundary, the HTTP transports (reqwest on native hosts, Fetch in the browser) and the
  serde forms of the library's data.

`tests/` exercises the library on concrete values.
