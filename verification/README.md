# flowmason

A workflow engine that runs flows: sequences of bricks (integrations and
data steps) that pass a JSON payload from one to the next.

`src/` is the library, verified with Verus:

- `json`, `text`: the JSON value model (objects keep their keys sorted) and
  the text operations the rest is built on.
- `mapper`, `mapper_bricks`: field mapping between documents (paths, merge
  and split strategies, transforms, conditions) and the data bricks.
- `rules_engine`, `rules_brick`: conditions over payloads and the rules
  brick, whose output names the first rule that matched.
- `flow_runner`: the step logic of a run (which brick runs next, skips,
  execution records).
- `quota`, `http_client`, `storage`, `auth`: quota verdicts, retry and
  circuit-breaker decisions, listing and summary rules, API keys and
  session claims.
- `service` and the `*_brick` modules: each integration's request,
  planned from its configuration, and its reading of the reply.

`app/` performs the I/O those decisions call for: HTTP, SQLite, the clock,
the cron scheduler, the web middleware and the asynchronous brick
interface.
