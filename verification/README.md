# neco

`neco "<what you want to do>"` asks a local LM Studio server (OpenAI-compatible
Chat Completions API) for a shell command or script, prints the JSON it
answers, and writes the script files the answer asks for.

Layout:

- `src/` — the library, verified with Verus:
  - `text.rs`: whitespace trimming, searching and comparison over the
    character view of strings;
  - `logic/shell.rs`: shell recognition from process names and the search up
    the parent-process chain (over sysinfo's process table);
  - `logic/prompt.rs`: the system and user messages;
  - `logic/response.rs`: the reply format and the removal of a Markdown code
    fence around it;
  - `logic/script.rs`, `logic/runn.rs`: which files to write, with which
    names and contents, and in which directories;
  - `api/lm_studio.rs`: the request messages, the endpoint address, and the
    content read from a reply;
  - `lib.rs`: preparing the prompt for a description.
- `app/` — the command-line program: argument parsing, the HTTP exchange,
  JSON reading and writing, environment variables and file writes.
- `tests/` — tests of the library on concrete values.
