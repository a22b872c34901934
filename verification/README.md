# OmniShell

An ACL-fortified shell with three execution modes (Kids, Agent, Admin),
per-profile configuration, snapshots with undo/redo, an audit log, a
sandbox plan for Kids mode and language-model helpers. The library in
`src/` is written in Verus: its own functions carry contracts that Verus
proves. The calls it makes into the standard library and into outside
crates (`glob`, `regex`, `shlex`, `serde_json`, `dirs`, `shrs_lang`) go
through small wrappers marked `#[verifier::external_body]`, whose contracts
are trusted, not proved; each says in its doc comment what it claims.

## Layout

- `src/` — the verified library.
  - `acl`, `lexer`, `glob_match`: the ACL engine, command-line splitting and
    patterns; laws on blocklists, allowlists and Kids mode.
  - `config`, `profile`, `theme`, `picker`, `picture`, `cli`: profiles,
    configuration merging and profile resolution.
  - `history`, `snapshot`, `undo`, `audit`, `restore`: what a session
    records, and the bookkeeping of restoring a snapshot.
  - `builtins`, `single_command`, `command_step`: builtin commands, one
    non-interactive command, and the decision for each simple command.
  - `shell_ast`, `shell_eval`, `shell_semantics`, `shell_test`,
    `expansion`, `redirects`, `line_check`, `arith`, `numbers`, `words`:
    the shell language — its commands, a step-by-step evaluator and the
    proof that it follows the command-by-command meaning of the language,
    `test`/`[`, word expansion, redirections, line continuation and
    arithmetic.
  - `sandbox`, `output`, `llm_integration`, `engram_backend`, `plugin`:
    sandbox plans, output formats, prompts, the agent tool and plugins.
  - `text`, `order`, `paths`, `error`: shared text utilities and errors.
- `app/` — the program: option parsing, reading configuration files, the
  prompt loop, running programs, git snapshots, writing logs.
- `tests/` — tests of the library.

## Not part of the library

- The type-keyed map that the `shrs` line editor expects (values stored as
  `dyn Any` under their `TypeId` and recovered by downcasting): Verus can say
  nothing about such values, and the line editor itself is not used; the
  program reads lines from standard input.
- Talking to a language model and to the engram task store: the model
  settings hold floating-point numbers, and both services are reached over
  the network. `app/llm.rs` holds what remains of them.
