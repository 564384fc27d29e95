# Torii

An indexer for Dojo worlds on Starknet, with its logic verified by Verus.

- `src/` is the library: what is indexed and when (`engine`, `processors`), what is kept in memory
  (`cache`, `ledger`, `broker`), what is asked of and written to the database (`sql`), whom an update
  reaches (`subscriptions`), how requests are answered (`server`), and how the program is set up and
  started (`options`, `runner`, `launch`). Every function states in its contract what it returns;
  where an outside crate decides, the contract states it over what that crate tells.
- `tests/` runs the library on concrete values, with the outside crates linked.
- `app/` is the program around it: command line, provider, database, listener and files. It starts
  and serves tokens and contracts; the fetcher, the executor and the GraphQL, gRPC and relay servers
  are crates of their own.

Calls into outside crates stand behind small functions whose doc comments say what is claimed of
them.
