# xrl_router

The verified core of an LLM API gateway. Clients speak one of three
protocols (Anthropic Messages, OpenAI Chat Completions, OpenAI Responses);
requests and streamed answers pass through a protocol-neutral
representation (`ir`) on their way to and from the upstream providers.

Layout:

- `src/` — the library, verified with Verus: the JSON model (`json`), the
  neutral representation (`ir`), readers (`from_*`) of each protocol and
  writers (`to_*`) of Messages and Chat Completions, the upstream stream reader (`upstream`), the
  non-streaming assembly (`non_stream`), usage accounting (`usage`,
  `sniff`), routing and failover (`route`, `failover`, `key_rotation`,
  `dispatch`), admission of requests (`handler`), management rules
  (`handlers`, `combos`, `config`, `router`), the search tool loop
  (`websearch`, `websearch_loop`), the conversation audit (`audit`) and
  the FM radio clock (`fm`). `messages_round_trip` and `chat_round_trip`
  prove that what is written reads back; `responses_blocks` proves that a
  Responses stream's blocks never share an index and close once.
  Responses requests and streams are read, and a non-streaming Responses
  answer is built, but there is no writer of Responses requests or of a
  Responses stream: `responses` upstreams are refused and streaming
  Responses clients get an error event.
- `tests/` — tests of the library.
- `app/` — the HTTP service around it (axum, reqwest, tokio): it reads
  requests, performs the upstream calls and streams the answers, and
  reaches storage and the key pool through the `Backend` trait.
