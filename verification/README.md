# lingclaw

The logic of a personal assistant that talks to language models, works on plans
in a workspace and keeps a memory of what it learned. The functions of the
library state in contracts what they return and change, and Verus proves it. Only
calls of other crates and of the standard library are taken on trust.

- `src/text.rs`, `src/json.rs`, `src/digest.rs`, `src/chat.rs`: texts, JSON
  values, fingerprints and the messages of a conversation.
- `src/plan/`: plans that are submitted, approved, reported on, held against the
  evidence they were made from and against the checks that they must pass.
- `src/memory/`: what is remembered, how a report of the model is merged into it,
  what of it a prompt or a task is given, and the queue of updates.
- `src/providers/`: requests and replies of OpenAI (chat and responses),
  Anthropic, Gemini and Ollama, plain and piece by piece, with pictures, tools,
  reasoning and repeated attempts.
- `src/prompts/`: skills, persona and memory files, and the system prompt.
- `src/session/`: counting and pruning a conversation, session names, commands.
- `src/diagnostics.rs`: what is told of a failed run.
- `tests/`: the library on concrete values.
- `app/`: files, the network and the notation of values on disk and on the wire.

Functions whose names begin with `law_` state what holds of the library as a
whole. A function marked `external_body` calls a crate or the standard library;
its comment says what is taken from there without proof.
