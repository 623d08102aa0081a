# anytimeuniverse

A wave-field universe in which time is a direct input: every parameter of
every generation of every wave is derived from a seed string, so any moment
can be evaluated without replaying the past.

`src/` is the verified integer core:

- `seed` — the linear congruential generator, seed strings drawn from it,
  and the seed hash (std's `DefaultHasher`).
- `palette` — the FNV-1a seed hash and xorshift generator behind the
  colour walk; the palette kinds.
- `triple_buffer` — one writer, one reader, three buffers whose roles live
  in a single state byte.
- `sim` — the statistics ticker's state machine and what it publishes.
- `generation` — fork ages within the 256-generation cycle.
- `keys` — the terminal renderer's key bindings.
- `playback` — speed presets and the archived colour-river history.
- `moment_hash` — writing and reading the `seed-epoch-residual-...` text.

`app/` is the command-line program: the interactive terminal renderer
(`--ascii`) and the data log (`--tape`), whose floating-point field
evaluation and colour math live there.
