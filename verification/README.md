# ai_chat

A chat client for OpenAI-compatible LLM services (SiliconFlow, OpenRouter,
DeepSeek, ...), a single-shot reasoning agent, and JNI entry points for an
Android host.

- `src/` is the verified library (Verus): the provider catalogue, message and
  configuration model, the conversation state of a client and how a reply or
  a transport failure turns into a result, the agent's decisions, the client
  registry behind the JNI layer, and the texts and JSON documents returned to
  the host.
- `app/` is the unverified shell: HTTP through `reqwest`, JSON decoding through
  `serde`, the provider-client interfaces that carry floating-point data, and
  the `extern "system"` JNI functions.
- `tests/` exercises the library on concrete values.
