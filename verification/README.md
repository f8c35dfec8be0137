# sonetto

The rules of a Reverse: 1999 game server, written in Verus and proved
against their contracts: the game connection's packets and login exchange,
Destiny progression and its store transaction, the battle setup (kits,
Destiny attributes, trial heroes, line-ups, monsters and entity lookup), the
SDK server's request rules, and the configuration generator's table checks
and publishing steps.

Layout:

- `src/` — the verified library. `packet`, `command` and `login` read and
  write the game connection's packets; `progression`, `protocol` and
  `transaction` plan and commit Destiny commands; `battle/` builds fights;
  `config`, `battle_tables` and `table` hold the configuration tables;
  `confgen/` checks JSON tables and publishes generated modules; `sdk` and
  `account` hold the SDK server's rules; `items` converts expired power
  items.
- `tests/` — tests run against the compiled library.
- `app/` — the executable: the TCP loop of the game connection and the file
  work of the configuration generator, driving the library.
