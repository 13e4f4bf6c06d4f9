# family

Family relationships between Discord users, for a bot: marriages, adoptions
and blocks recorded in one row per user, the checks that the family slash
commands and buttons make before they change rows, the answers that their
errors are given, and the layout of a family-tree picture.

- `src/` is the library, verified with Verus. `family_manager` holds the
  row (`FamilyRow`) and what it records; `relationships` how two users are
  related; `error` the errors and their answers; `commands` the checks and the
  registration of each slash command, with the tree layout in
  `commands/tree.rs`; `components` the accept and decline buttons under a
  proposal.
- `app/` is the Discord and database side: the `FamilyManager` trait that a
  bot implements over its database, the slash commands and buttons that read
  interactions, call the library and save rows, and the drawing of the tree.
- `tests/` runs the library on concrete values.
