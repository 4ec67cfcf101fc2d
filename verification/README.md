# capacitor-bot

A Discord bot that trains capacitor text models on datasets uploaded to a
server, and queries them.

- `src/` is the library: what the bot decides, computes and says, with
  contracts proved by Verus. It does no I/O.
  - `commands`, `options`: the command set, its dispatch, and the options of an
    invoked command.
  - `datasets`, `recipes`, `files`, `models`, `train`: the answers to the
    commands and the steps that they go through.
  - `store`, `store_laws`: the registry of models, stored names and paths, and
    what holds of them as a whole.
  - `recipe`: resolving a recipe's datasets and fitting the numbers of experts.
  - `recipe_edit`: code fences, and files that follow the edits of a message.
  - `query`: per-guild limits and the model cache.
  - `jobs`, `progress`, `percent`: the worker pool and how a build is reported.
  - `text`, `numbers`, `order`, `paths`, `util`, `settings`: what these rest on.
- `app/` is the program: the Discord client, files, threads, the form of
  `registry.json` and the calls into the `capacitor` engine.
- `tests/` runs the library on concrete values.

What is stated in words as a law is a public proof function whose name begins
with `law_`.

Environment: `DISCORD_TOKEN` (required), `CAPACITOR_DIR`, `TRAIN_WORKERS`,
`QUERY_CAPACITY`, `CACHE_SIZE`.
