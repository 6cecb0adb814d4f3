# lash-harness-opt

Optimizes the prompts of a harness: it evaluates candidates on examples, asks a strategy for
patches of their mutable components, keeps the candidates that improve, and reports on the run.

* `src/` is the library, verified with Verus. It decides and computes and does no input or output.
  Where outside work and decisions alternate, a type of the library takes what came of the last
  action and names the next: `optimizer::HarnessOptimization` for a run,
  `evaluation::CachedEvaluation` for a candidate, `obliq_evaluation::ObliqEvaluation` for one
  example of the retrieval project.
* `tests/` runs the library, with a store in memory where one is needed.
* `app/` is the program: arguments, the SQLite store, files, processes and sessions with language
  models. Scores are compared in the library by their bits; what takes floating-point arithmetic
  (means, the parsing and printing of numbers) is done here and handed over.

The models that are used where none is named come from the environment:
`LASH_HARNESS_OPT_TASK_MODEL` and `LASH_HARNESS_OPT_REFLECTION_MODEL` for the synthetic task,
`LASH_HARNESS_OPT_ANTHROPIC_MODEL` and `LASH_HARNESS_OPT_OPENAI_COMPATIBLE_MODEL` for providers of
those kinds. A run that needs a model which nothing names ends with an error.
