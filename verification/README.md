# dungeon

The engine of an interactive storytelling program: the ledger that a story is written in, the
entities and attributes that are read from it, the turns in which a narrator answers a player, and
the rules that decide what is kept, replaced, rolled back or summed up.

- `src/` is the library. Everything in it is verified with Verus: each function states what it
  returns and what it changes over the tables in `store::Store`, and the `law_` functions state
  what holds across calls.
- `tests/` runs the library on concrete values.
- `app/` is the host around it: the database behind the tables, the language and image models, and
  the arithmetic on floating-point values, which the library takes as functions.
