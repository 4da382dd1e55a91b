# murmur-plato-bridge

Bridges the thoughts of a Murmur knowledge tensor (`tensor.json`) to PLATO
fleet rooms as tiles, and reads fleet tiles back as thoughts.

- `src/` is the library, verified with Verus: the strategy → domain/tag
  routing, the sentence patterns that split a thought into a question and an
  answer (`grammar.rs`, `tile_mapper.rs`), the quality gate, hashing and word
  similarity for duplicate detection, the connections graph, the decisions of
  a sync and of a bridge run, and the meaning of PLATO's answers.
- `app/` is the program: JSON (de)serialisation, HTTP requests to PLATO,
  the state file, logging and the run loop.
- `tests/` exercise the library, including a comparison of the sentence
  patterns with the equivalent regular expressions.

Confidences and thresholds are fixed-point numbers in millionths; the
program converts the fractions of `tensor.json` on reading.
