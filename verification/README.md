# mahjong

The rules engine of a riichi mahjong variant played with a revolver, written
in Verus: every function of the library carries a contract, and Verus proves
the code against it.

## Layout

- `src/` — the verified library.
  - `tile`, `counting`, `decompose`, `melds`: tiles, counting and sorting,
    splitting a hand into melds and a pair, wait shapes.
  - `shanten`, `calls`, `naki`: shanten and the tiles that advance a hand;
    tenpai, furiten and the calls on offer; carrying out calls.
  - `yaku`, `scoring`, `evaluation`, `winning`: yaku detection, fu, dora and
    payouts, the best reading of a winning hand, ron and tsumo.
  - `table`, `chance`, `dealing`: the wall and dead wall, the revolver, the
    shuffle and the dice (through `rand`), dealing a round.
  - `settle`, `exhaustive`, `aborts`, `round`, `executions`: moving points
    after a win or a draw, abortive draws, the counters of the match and the
    seating, the shots a round earns.
  - `turns`, `nuki`: discards, kans and North tiles set aside by the
    player on turn.
  - `bot`, `strategy`, `bot_calls`, `bot_turn`, `reading`, `cheating`,
    `accusation`: the decisions of the bots.
- `tests/` — tests of the library on concrete hands and tables.
- `app/main.rs` — a console match between four bots: it keeps the seats,
  turns the bots' temperaments (fractions) into the numbers the library
  takes, prints the match and can save a replay as TOML.
