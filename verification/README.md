# crystal_server

Game server for a Crystal (Legend of Mir style) MMORPG. The game rules are a
Verus-verified library; a Tokio program around it owns the sockets, the
SQLite store and the world tick. Every byte a client sends goes through the
library's connection state machine, which cuts and decodes requests; the
program answers the ones this server takes (login by account or wallet,
characters, movement, chat and chat commands, combat, harvesting, revival,
item moves, equipment, storage, drops and pickup, buying from and selling
to merchants, NPC clicks, spells and shots, fishing, trades, groups,
quests, mentors, marriage, friends, reincarnation, the game shop, mail)
with the library's rules, and passes over the rest (refining, repair, the
market packets, storage passwords, the information requests and others).

## Layout

- `src/` — the verified library (`crystal_server`):
  - `maps`, `world`, `objects`: map files and collision, movement, chasing,
    portals, what a player is shown of a map, drops on the ground;
  - `entities`, `combat`, `magics`, `items`, `spawn_config`: players and
    monsters, levels, equipment bonuses, attacks, monster AI, respawn,
    harvesting, fishing, spells, the item and monster tables;
  - `group`, `guild`, `trade`, `market`, `mail`, `shop`, `services`, `quest`:
    parties, guilds, player trades and their settlement, the player market,
    mail, merchants, storage passwords, mentors and marriage, quests;
  - `session`, `connection`, `packets`, `replies`, `net`: the life of a
    connection as a state machine, framing, decoding the client's requests
    and encoding the server's answers;
  - `chat`, `game`, `party`, `bag`: recognising chat commands and carrying
    out those that act on the shared game state (trades, guilds, the
    market, mentor requests, proposals), group requests, and item requests on a player's belongings;
  - `account`, `db`, `inventory`, `text`, `web3`: accounts, bag and storage
    rules, text helpers, and wallet login (EIP-191 signatures).
- `app/` — the server program: configuration, the SQLite store, the world
  tick, the TCP accept loop and, per connection, the loop that performs the
  actions `connection_step` and `chat_step` return.
- `tests/` — tests of the library.

Verus checks the functions of `src/` against their contracts. The few calls
into outside crates (hashing, signatures, randomness, the clock) sit behind
small trusted wrappers whose contracts are stated, not proved.
