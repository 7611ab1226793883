# space_trader

The rules of a terminal space trading game, written in Verus with their
contracts proved.

- `src/` is the verified library: items and the cargo hold, ships, skills,
  factions and storylines, accounts (passwords through bcrypt), the player
  market, the rules that decide which standing trade orders expire or
  execute, blueprints and crafting, mining, trading,
  navigation, the screen state machine of the game, the client and server
  sides of a network session, and the bookkeeping of logs, timings, errors
  and connection health. Each module states what its functions do over
  mathematical models (`Seq`, `Map`, integers) and proves a few laws that
  tie several functions together.
- `tests/` runs the library on concrete cases.
- `app/` is the program around it: the terminal interface, files, network
  sockets, the star map and the market simulation, which compute with
  floating-point numbers, and the diagnostics demonstrations.

Times in the library are integers: seconds or milliseconds since the Unix
epoch, as each function says. Figures that the game keeps as fractions
elsewhere (fuel use per light year, crafting table modifiers) are kept in
tenths or hundredths.
Where the game reckons a figure in `f32` (the price a station pays, the
research a blueprint needs after it improves, the price change of a market
statistic), `app/` works it out and hands the result to the library.
