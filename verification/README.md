# ctt

A client for the cluster ticket tracker's GraphQL server, written in Verus.

- `src/` is the verified library: the command-line values and the enums the
  server speaks (`cli`, `status`), the GraphQL operations (`queries`), how the
  server is found in the batch system's configuration (`server`), how an
  answer is settled (`reply`), the order and content of the tables the client
  shows (`order`, `listing`, `clock`), the retry budget (`retry`) and the
  messages it prints (`report`).
- `app/` is the program around it: argument parsing with clap, HTTP with
  reqwest and graphql_client, MUNGE authentication, reading `/etc/pbs.conf`,
  and drawing the tables with comfy_table.
- `tests/` runs the library on concrete values.
