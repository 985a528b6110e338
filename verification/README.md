# deslop

A deterministic analyzer for Ruby on Rails, Vue single-file components and
SQL, written in Verus. Each finding names a line, quotes it, and says which of
four gates (think, simple, surgical, goal) it counts against and how to fix it.

Score:

```
gate_i  = clamp(100 - Σ weight(severity))       weights: fatal 28, high 14, med 7, low 3
deslop  = round(0.30 think + 0.25 simple + 0.20 surgical + 0.25 goal)
fatal   ⇒ deslop := min(deslop, 45)
lines = 0 ⇒ deslop := 0
```

Layout:

- `src/text.rs` — character-level model of the string operations the rules use
  (trim, ASCII case, substring search, UTF-8 byte lengths, line splitting).
- `src/rules.rs` — the rule catalogue (id, gate, severity, texts).
- `src/rails.rs`, `src/vue.rs`, `src/sql.rs` — the rules of each language,
  each stated as a spec function over the numbered lines.
- `src/ast.rs` — the one-node-per-line outline.
- `src/score.rs` — the score model and its laws.
- `src/order.rs` — the stable report order.
- `src/lib.rs` — `Lang`, `Finding`, `Src`, `Report`, `analyze`.
- `app/` — the command line (`deslop inspect [--lang rails|vue|sql] [--json] [FILE|-]`),
  JSON output and, when that crate is built for `wasm32`, the C ABI exports.

Exit codes: `0` deslop ≥ 75 and no fatal, `1` slop, `3` fatal, `2` usage.
