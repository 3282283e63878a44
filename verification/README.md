# builder_jobsrv

The request handlers of the Builder job server, verified with Verus.

A handler that has to ask other services hands out steps. Each step says what is wanted next (a
row, the reverse dependencies of a package, that the scheduler be notified) and is resumed with
the reply to it, until the request is answered. So the decisions stand in `src/` with their
contracts, and whoever runs the steps does the input and output.

- `src/jobs.rs`: jobs and their logs
- `src/groups.rs`: lookups of job groups
- `src/create.rs`, `src/create_new.rs`, `src/projects.rs`, `src/audit.rs`: creating a job group
- `src/cancel.rs`: cancelling a job group
- `src/graph.rs`, `src/build_groups.rs`: what depends on a package, as a list and in build groups
- `src/create_laws.rs`, `src/cancel_laws.rs`, `src/build_groups_laws.rs`: what holds from the
  request to the answer, whatever the services reply
- `src/messages.rs`, `src/error.rs`, `src/text.rs`, `src/repeated.rs`: messages, errors, names and
  protobuf's repeated fields
- `app/`: the handlers as the server calls them, which run the steps against the services
