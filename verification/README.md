# qwen_coder_web

A web service that talks to an OpenAI-compatible API (chat completions and
task decomposition), keeps prompt templates, and lists and creates Gitea
issues and pull requests.

- `src/` is the verified library (Verus): configuration defaults, the
  environment and `.env` handling, API-key masking, the `{{name}}` variables of
  prompt templates and the prompt collection, the reading of subtasks from a
  model's answer, the steps of the decomposition and chat completion
  endpoints (the calls they make, and the answer to each way a call can come
  out), the Gitea settings that saving sets and every Gitea call reads,
  request URLs and headers, and the answers to failed calls.
  Each module states its contracts over `Seq<char>` views; the `law_*` proof
  functions state properties that relate several operations.
- `app/` is the axum server around it: routing, HTTP calls, JSON, files and
  environment variables.
- `tests/` runs the library on concrete values.
