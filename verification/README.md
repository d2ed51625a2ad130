# infy

A local inference engine's decisions, verified with Verus: which model a ref
names and which GGUF of a repository to take, how a prompt is prepared and a
stream of tokens is cut into text that never shows a stop sequence, how
ollama, llama.cpp and LM Studio are found, started, stopped and read, and
what every failure says.

## Layout

```
src/          the verified library
  kernel/     errors, cancellation, messages, model refs, generation results
  engine/     decoding (stop sequences, UTF-8-safe deltas, the context
              window), the prompt cache plan, the seeded generator, chat
              templates (minijinja), the byte-level tokenizer
  models/     architectures, checkpoint metadata, the model's shape and the
              tensors it reads, the compute device
  hub/        refs, GGUF selection, the local catalogue, what a pull does
  runtime/    the runtimes as a table, their commands, listings and streams,
              and the service that drives them through the machine's traits
  bootstrap   flags and environment as values
  text        text and sequence helpers shared by the above
tests/        tests of the library
app/          the `infy` command: flags, files, processes, HTTP, the
              sampler, and the terminal side of the chat REPL
```

What this build does not hold: native inference (the `Engine` drives any
`Model` given to it, but no model implementation that loads GGUF weights is
part of this build),
the Hugging Face `tokenizers`-backed tokenizer (that crate is not among the
dependencies; the byte-level tokenizer is), and the OpenAI-compatible
server (`infy serve` says so and exits). Models run through ollama,
llama.cpp or LM Studio.

The machine is reached only through traits (`Processes`, `Http`, `PidStore`,
`Clock`, `Downloader`, `Tokenizer`): the library decides, the command acts.
Floating-point work (sampling, rates, the float hyperparameters of a
checkpoint) stays in `app/`.
