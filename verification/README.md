# sapphire_journal

A Markdown-based task and note journal: each entry is a `.md` file with a
YAML frontmatter block, stored as `{year}/{id}_{slug}.md`.  The logic is a
library verified with Verus; a thin command line wraps it.

- `src/` — the verified library: identifiers and filenames (`id`,
  `journal`), entry framing (`parser`), periods and calendar arithmetic
  (`period`, `week_period`, `calendar`, `month_grid`, `date_range`), flags
  and labels (`labels`, `emoji`, `home`), filtering, sorting, the entry tree
  and entry edits (`ops`), the cache's decisions (`cache`), configuration
  (`user_config`, `recall_config`, `cache_config`, `workspace`), and the
  command-line renderings (`cli`).  Calls into `chrono`, `grain-id` and
  `caretta-id` go through small trusted wrappers whose contracts state what
  those crates document.
- `tests/` — tests of the library, run against the real outside crates.
- `app/` — the `sapphire-journal` command: argument parsing (`clap`), the
  file system, YAML and TOML (`serde_yaml`, `toml`), and printing.
