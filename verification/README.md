# mud_perspective

Perspective-aware text generation for MUDs and interactive fiction, written in Verus:
every function of the library carries a contract, and Verus proves it.

The library decides how an entity is named for a given viewer ("you", "your sword",
"the second goblin", "goblin's and my"), how verbs agree with their subject, how players'
target descriptions ("the goblin's sword", "my second wolf") are resolved, and how the tags
of a template (`{the:source's:obj}`, `[source:pulse]`, `{$weather ?? "clear"}`) are read.

Layout of `src/`:

- `text` — character and string helpers, and the trusted wrappers around `std` text
  functions, `deunicode` and `in_definite`.
- `grammar` — ordinal words, pronouns, articles, capitalisation, Oxford lists, the runtime
  irregular-verb dictionary and verb conjugation.
- `models`, `context` — entities, groups, the rendering context and its anaphora memory.
- `resolve` — resolution of players' target descriptions.
- `parser`, `tags` — the tag syntax of templates and the reading of one tag into a token.
- `engine`, `groups` — naming decisions: viewer words, pronoun ambiguity, name collisions,
  ordinals, adjective disambiguation, and the listing of groups.
- `evaluator`, `pronouns`, `render`, `narrative`, `verbs`, `rendering` — reading tag
  segments, text properties, variables and conditions; rendering entity, variable and verb
  tags; and rendering a compiled template token by token into raw output.
- `keymap`, `debug`, `permutations`, `tester` — an insertion-ordered string map, debug
  entities, the plan of a template test over viewers, stances, tenses and entities, and the
  commands of the interactive template tester.
- `laws` — properties that span several operations, stated and proved.

`app/` holds the command-line tester around the library: argument and file handling, JSON
entity files, and the interactive loop.
