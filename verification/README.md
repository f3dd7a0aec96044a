# veloren_server

The decision logic of a Veloren game server, written in Verus and proved
against its contracts.

- `src/` is the verified library. Each module holds one part of the
  server's rules: configuration defaults (`config`), named locations
  (`location`), battle-mode cooldowns (`battle_mode`), trades (`trade`),
  invites (`invite`), groups (`group`), administration and chat commands
  (`admin`, `commands`), possession and inventory gates (`player`), item
  pickup, collection and use (`pickup`, `collect`, `item_use`), mining
  (`mine`), kills and loot (`death`), bans (`ban`), the QUIC key files
  (`tls`), the level-of-detail grid (`lod`), mounting (`mounting`), and
  server housekeeping (`server`). `laws` states the properties that tie
  several operations together.
- `tests/` runs the library on concrete values.
- `app/` is ordinary Rust around the library: the configuration file on
  disk, the clock, the TLS files, and the floating-point range checks.
