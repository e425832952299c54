# datafusion_exec

The decisions of a SQL shell, verified with Verus: how lines become statements, which statements are
executed in which order, when a failed statement is planned again, which object stores are registered
for a plan, which batches of a result are kept, and how all of it ends.

Each run is a small machine: it is told what happened and answers what to do next. The contract of
every step is a transition function over mathematical values, and the properties of whole runs are
public proof functions whose names begin with `law_`.

| module | what it decides |
| --- | --- |
| `text` | characters, words, white space, case |
| `sql` | SQL text to statements, through DataFusion's parser |
| `keyword` | the texts on which that parser may panic, by their keywords |
| `queue` | pieces of work in order, up to the first failure |
| `script` | lines of a script to statements |
| `repl` | the interactive session |
| `options` | print options and their adjustment |
| `statement` | planning and running a statement, with the retry for S3 regions |
| `plan` | what has to be registered before a plan is handed out |
| `store` | the registration of an object store |
| `query` | streaming or collecting a result, and printing it |
| `file_type` | file formats |

`app/` carries the decisions out: files, terminal, DataFusion sessions. What the shell needs from its
surroundings is gathered in the traits of `app/host.rs`.
