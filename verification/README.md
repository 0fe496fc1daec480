# eink_chess

A chessboard for an e-reader that behaves like a physical board: touch a
piece to pick it up, touch any square to put it down (replacing whatever
stood there), touch it again to put it back. Positions come from a file of
FEN lines; there are no chess rules.

- `src/board.rs` — the board, its taps and resets, and the laws they keep.
- `src/fen.rs` — reading a six-field FEN text into the 64 squares.
- `src/positions.rs` — reading the positions file.
- `src/display.rs` — square names, piece letters, the flipped view.
- `src/chess_app.rs` — what each device event does and what the host must
  do next (draw, save, exit).
- `src/text.rs` — splitting, trimming and numerals on characters.
- `app/main.rs` — the Kobo program around the library (Cobalt SDK).

Every function in `src/` is verified with Verus against its contract.
