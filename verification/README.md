# fedqrs

The planning core of a federated query engine, verified with Verus, and the
program around it.

A planner hands a query over as JSON: an ordered list of steps (read a source,
collect join keys, read a probe with those keys, merge, return) and the
relational fragments that the merges run. The engine reads each source over a
native driver, runs the fragments on DataFusion, and returns the result as an
Arrow stream.

- `src/` is the library: the order of the steps, the choice of a read, the SQL,
  the expressions and the decimals, each with its contract. Reading a source and
  running a fragment are actions that it asks for and whose results it is handed.
- `app/` does the input and output: source drivers, the DataFusion runtime, the
  Python module, the JSON form of the plan, and a benchmark of ways to fetch a
  Postgres result into Arrow. It also holds the one rule that is computed in
  floating point: the estimate of the part of a table that the join keys select,
  and its comparison with the part beyond which the table is read whole.
- `tests/` runs the library on concrete plans.

What the library takes on trust is stated where it is used: the declarations in
`src/datafusion_types.rs`, and the few functions marked `external_body`, each
with a note on the outside function it calls.

## The benchmark

```
fedqrs --host=localhost --port=5432 --user=postgres --database=mydb \
  --sql="SELECT id, path FROM files"
```

It fetches the query over the Postgres driver, over ADBC and over connectorx.
The last of these needs the crate `connectorx` with the features `src_postgres`
and `dst_arrow`. `Cargo.toml` leaves it out, since it would bring in over a
hundred further packages that nothing else uses: add it there before building
the program.

Options are written `--key=value` or `--key value`: `--host` (localhost),
`--port` (5432), `--user` (postgres), `--password` (none), `--database` or
`--dbname` (test_db), `--sql`, `--adbc-driver`. `--duckdb`, `--datafusion`,
`--adbc-df`, `--adbc-duckdb` and `--federated` choose an experiment instead.
