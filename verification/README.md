# lengua

A git-backed library of templated text: plain text, Markdown, LaTeX or code
snippets, each a file with YAML frontmatter, rendered with minijinja
(Jinja2-style) variables. A library lives in `.lengua/`, which holds one or
more named sources (`.lengua/<source>/templates/`, each its own git
repository) listed in `.lengua/sources.toml`.

## Layout

- `src/` — the library, verified with Verus. Every public function states in
  its `ensures` what it returns or changes, over spec functions on plain
  values:
  - `text`, `order` — character-sequence helpers and sorted key/value lists;
  - `cli`, `from_repo` — `key=value` arguments, metadata given on the command
    line, and the `[host/]owner/repo[/subdir][@ref]` shorthand;
  - `yaml`, `meta`, `query`, `frontmatter` — the frontmatter data model, field
    queries (an AND of equality filters), and parsing/writing frontmatter;
  - `template`, `diff`, `output` — rendering, line diffs and the terminal
    palette, each a thin call into minijinja, similar or owo-colors;
  - `tags`, `store` — revision tag names and refs, template names, history
    collapsing, tag listings;
  - `manifest`, `library`, `source` — the sources manifest, how several
    sources merge (the most recently fetched wins, every collision is
    reported), naming and adopting a source, and planning updates;
  - `skills`, `report`, `error` — the bundled agent skill, command reports and
    error messages.
- `tests/` — tests of the library on concrete values.
- `app/` — the `lengua` command-line program: argument parsing with clap, the
  filesystem and the git repositories (through gix), and the sources
  manifest on disk (toml). It asks the library for every decision.

Laws of the library are public proof functions named `law_*`, in `library`,
`query` and `store`.
