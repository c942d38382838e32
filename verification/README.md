# context_shake

Keeps the context of a long conversation with a model small, and knows what that
is worth. Heavy content is taken out of the history mechanically ("shaken"), what
was taken out is saved so that it can be read again, and automatic reductions
follow policies that are set per model, provider and agent.

The library in `src/` is verified with Verus:

- `shake` finds old tool outputs and large blocks, replaces them by placeholders,
  strips images and reasoning, measures a shake before it is done (`preview`) and
  decides when one is due (`auto`);
- `smart_compact` prepares the request for a written handoff and accepts or
  refuses the answer;
- `session` and `agent` decide, step by step, how the context of a spawned agent
  is reduced, who may change its policy, and what is recorded;
- `stats` reads shakes out of a log and reports what they freed and cost;
- `config`, `artifacts`, `cache_staleness`, `fork_update`, `shake_cost`,
  `shake_preview`, `read_artifact` and `fragments` hold the rules of settings,
  files, prompt caches, releases, prices, dialogs, tools and context fragments.

What the library has from other crates (hashing, JSON, random ids, shell quoting,
line breaking, calendar dates) stands behind small wrappers whose contracts say
what is taken on trust.

`app/` is the program `code-shake-stats`, and the glue between the library and a
session: files, clocks, requests, dialogs. `tests/` runs the library.
