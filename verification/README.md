# inspektor

A proxy between PostgreSQL clients and a target database. It opens a session
with the target in the client's name and hands on what the two say. Of the
client's messages it hands on those that the policy in force allows, and it
rewrites the client's queries on the way.

- `src/` is the core, verified with Verus. It does no input or output: it takes
  events and says what is to be done.
  - `handshake`: from the first connection to an open session; `handshake_laws`
    states what holds of every handshake.
  - `handler`: one turn of an open session; `handler_laws` states what holds of
    every session.
  - `query`: a query as a list of statements, and its rewriting.
  - `message`, `params`: the messages of the protocol and their bytes.
  - `auth`, `hex`: the answer to a request for a hashed password.
  - `tables`, `config`: the tables of the database, and the target's settings.
  - `policy`: how distributed policies reach the sessions.
- `app/` is the program around it: arguments, sockets, TLS, threads.
- `tests/` runs the core with the real SQL parser and hash function.
