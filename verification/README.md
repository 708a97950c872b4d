# sara

Sara manages architecture documents and requirements kept as Markdown files
with YAML frontmatter as one knowledge graph: solutions, use cases,
scenarios, system, hardware and software requirements, architectures,
detailed designs and architecture decision records, linked by traceability
relationships (refines, derives from, satisfies, justifies, depends on,
supersedes).

## Layout

- `src/` is the library, `sara_core`, written in Verus: every function has a
  contract. All are verified except the small wrappers marked
  `#[verifier::external_body]` that call `petgraph`, `indexmap`, `strsim`,
  `colored` and a few std functions; their contracts are trusted, and each
  wrapper's doc comment says what it claims of the call.
  - `model/` items, identifiers, types, relationships, field values, the
    builder that checks an item's fields, and the edit and init data;
  - `parser/` frontmatter extraction and update, and the item a parsed
    frontmatter describes;
  - `graph/` the knowledge graph over a `petgraph` graph, its builders,
    traversals, statistics and the difference between two graphs;
  - `query/`, `report/` lookups, coverage and the traceability matrix with
    their text, CSV and HTML forms;
  - `generator/` YAML frontmatter and Mermaid diagrams;
  - `init/`, `edit/`, `diff/` the services behind the commands;
  - `cli.rs`, `interactive.rs`, `output.rs`, `export.rs` the decisions of
    the command line: configuration path, verbosity, repositories, query
    traversals, the check report, prompt checks and summaries, colored
    messages, and the graph as it is exported.
  - Laws that span several functions are public proof functions, such as
    `lemma_update_frontmatter`, `lemma_diff_swap`, `lemma_same_items_no_changes`,
    `lemma_type_from_own_id`, `lemma_status_parses_own_id`, `lemma_traversal_laws`,
    `lemma_built_edges_have_inverses` and `lemma_suggested_id_is_fresh`.
- `tests/` runs the library on concrete values.
- `app/` is the `sara` command: argument parsing, file and Git access, YAML
  and TOML reading, JSON writing, terminal prompts and logging, around the
  library.
