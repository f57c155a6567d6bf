# chess_tui

A Chinese chess (xiangqi) game for the terminal, played in Chinese move
notation (`马二进三`, `炮二平五`, traditional characters, Arabic numerals or
ICCS coordinates such as `h0g2`) against the Pikafish UCI engine or a
built-in engine.

## Layout

- `src/` — the library, verified with Verus:
  - `board`, `iccs`, `notation`: points, moves, ICCS coordinates, writing and
    reading Chinese notation;
  - `rules`, `game`: the game record on top of the `chessai` rules engine;
    positions are checked before the engine reads them, so that its fixed
    move list never overflows;
  - `uci`, `session`, `builtin`: the engine protocol (`info` and `bestmove`
    lines, the UCI conversation and the built-in worker's loop as state
    machines);
  - `skill`: difficulty levels and the weighted choice among candidate lines;
  - `keys`: reading a map in key order;
  - `app`: the application state and every handler of keys, commands and
    engine reports;
  - `display`, `screen`: the words and marks shown on screen;
  - `cli`: the command line;
  - `text`: characters, trimming, splitting, decimal numbers.
- `app/` — the terminal program: process and thread plumbing for the engine,
  terminal set-up, and drawing with ratatui.
- `tests/` — tests of the library.
