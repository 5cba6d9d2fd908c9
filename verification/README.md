# pg_task_scheduler

The rules of an embeddable PostgreSQL work queue, verified with Verus. Immediate,
delayed and recurring work become rows of one table of runs and are executed at
least once, by concurrent workers, under fencing tokens.

## How it fits together

A transaction locks rows and hands them to the library as `Tables`, together with
a reading of the database clock. The library decides, and the transaction writes
back what changed. Each operation is stated as a function from one state of the
tables to the next.

| Part | What it holds |
| --- | --- |
| `ids`, `policy`, `cron`, `time`, `text` | identifiers, execution policy, schedules, instants |
| `models`, `tables` | rows, and finding and changing them |
| `ranking`, `selection` | bounded, ordered selection of rows |
| `store` | claiming, ending, renewing, recovering, materializing, inspecting |
| `queue`, `jobs` | enqueueing, cancelling, pruning; recurring jobs |
| `runtime` | registry, configuration, the decisions of a worker and of a handler |
| `admin`, `metrics` | answers of the administration routes, counters |
| `consistency`, `laws` | what holds of the tables at all times, and of the operations together |

`app/` is the program around the library: Diesel, Tokio, Axum and gnort.
`tests/` runs the library on concrete tables.

## What is proved

- Every operation keeps the tables that it is handed consistent: keys unique, each
  row with exactly the facts of its state, attempts within their limit, one live
  attempt for each running run. A transaction hands over the rows that it has locked;
  that keys are unique across the rest is for the indexes of the database.
- Only the token of the current claim can complete, fail or renew a run. A token
  whose attempt has ended never can again, also after the run was claimed anew. A
  claim compares the tokens it draws with each other and with every attempt that it
  was handed, and claims nothing where one of them is taken. The attempts of a run
  are loaded with it, so that it never gets one token twice; that the tokens of runs
  a transaction does not load differ rests on their being random.
- A run is claimed by one worker at a time, in order of priority, availability and
  identifier.
- An expired run is handed on once, or fails where its attempts are exhausted.
- A due slot of a job that has a further one is never skipped: its run and the next
  cursor are written together.
- A batch handles every due job, up to its limit, and gives each one run and a
  cursor in the future. A job whose expression gives no further slot is paused and
  never holds up the others. This is stated for distinct identifiers that are not
  taken; a batch that draws one twice stops there, with the tables consistent.
- A run keeps its payload and policies for life, whatever becomes of its job.
- Shutdown claims nothing more, drains handlers until the time is up, aborts those
  that are left, and stops once none is left.

What is taken on trust are the calls into `chrono`, `croner`, `uuid`, `serde_json`
and a few functions of `std`; each such item says what it claims.
