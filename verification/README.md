# embed-bench

A benchmark that embeds the words of a document with an ONNX model and reports how long that
took.

- `src/` is the library, verified with Verus: how a document is cut into texts (`chunks`), which
  execution providers a session is given (`providers`), where shared libraries are looked for and
  in what order they are loaded (`libraries`), how the runtime is started (`startup`), what a model
  is made of and what is due before it can embed (`model`), how its files are fetched (`download`)
  and how it is built from them (`load`), the working directory (`paths`), the count of worker
  threads (`pool`), and what becomes of a panic (`report`). `text` and `lists` hold what these
  share.
- `app/` is the program: arguments, files, the network, the runtime, threads.
- `tests/` run the library.

Work that the library cannot do itself is asked for step by step. `Search`, `Preload`,
`RuntimeStart`, `Download`, `Load` and `ProviderSetup` name the next question and take the answer;
`Model::embed_chunks` says what is due.
Proof functions named `law_...` state where these lead.

What is taken on trust is written down beside each wrapper: path operations of `camino`, word
boundaries of `unicode-segmentation`, JSON of `serde_json`, and `String::push`.
