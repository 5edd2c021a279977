# All In

A casino card duel: Lucky Jack walks up three floors of a casino, duelling
each enemy with a row of cards laid across from theirs, pushing his luck on a
coin, and collecting perks and items on the way to The House.

`src/` is the game's logic, verified with Verus:

- `duel` — the duel: the Draw, the row, the Opposing Cards, Tells resolved by
  slot, the showdown, Push Your Luck, Rising Blinds and The House's Hole Card.
  `duel_laws` states what holds across its operations (no card is ever lost
  or made up, a lift undoes a place, a tie pays nobody, ...).
- `run` — cards, enemies, rewards, perks, items, and the run state they change.
- `progression`, `shell`, `state` — the walk up the casino and the screen
  state machine around the duels.
- `table`, `peek`, `hits`, `info`, `ui`, `words`, `art` — what the table does
  with a frame's keys and clicks, the Peek, the hit markers, the glossary, the
  lines the screen prints, and where the art is found.
- `devstart`, `narrative` — the dev command line and the game's prose.

`app/` is the Bevy shell around it: the window, the keyboard, the clock and
the drawing. It calls into the library once a frame and leaves every rule of
the game to it; before each call it checks the library's preconditions, and
stops with a message on a table whose numbers run past what the duel holds.
`tests/` runs the library on concrete games.
