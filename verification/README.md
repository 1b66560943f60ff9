# shirl

A coding assistant for the terminal, as a verified library with a thin program around it.

- `src/` is the library: what the program decides and computes, as functions with contracts that
  Verus proves. Each module states its contracts over spec functions on `Seq<char>`, `Map` and
  views of its types.
- `tests/` runs the library from outside.
- `app/` is the program: arguments, files, git, the network, the terminal, and the calls into the
  agent framework. What it decides itself needs floating-point numbers: the length from which a
  session is compacted, and the sizes in warnings about large files.

## The library

| Modules | What they hold |
|---------|----------------|
| `text`, `bytes`, `file_path`, `byte_path`, `text_map`, `sort` | text, UTF-8 lengths, paths, maps by text, a stable sort |
| `cli`, `headless` | the command line; the report of a run without a conversation |
| `agents`, `prompts`, `worker` | the agents, their tools, subagents and handoffs; workers |
| `event_loop`, `chat`, `slash`, `command`, `turn`, `switch` | the interactive loop; what a line means; switching modes and models |
| `picker`, `file_picker`, `approval`, `transcript` | what the terminal shows and asks |
| `message`, `compaction`, `media_input`, `media_strip` | conversations: compacting them, media in them |
| `config`, `auth`, `paths`, `discovery` | settings, keys, where files lie |
| `catalog`, `raw`, `factory`, `model` | models and providers, and how a model is asked to reason |
| `agents_md`, `skills`, `custom_commands`, `prompt` | instructions, skills and commands of users and projects |
| `tracker`, `tracking`, `mcp`, `memory_cmd`, `args` | plans and todo lists; the sandbox; MCP servers; long-term memories |
