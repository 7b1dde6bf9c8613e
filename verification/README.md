# rusteroids

The rules and bookkeeping of a multiplayer asteroid shooter played on a
toroidal map of chunks, written in Verus and proved against their contracts.

- `src/` is the verified library:
  - `world`: the map configuration, object ids, wrapping chunks onto the map,
    the loaded chunks and the chunk debug view;
  - `puppets`: which copies of objects the shadow chunks around the map show;
  - `spawning`: the per-chunk object counts and where new objects go;
  - `visibility`, `sync`: what the server sends each client and how a client
    applies it;
  - `ship`, `asteroids`: ship styles and shapes, asteroid sizes, outlines,
    mesh indices and hits;
  - `clients`, `bots`, `console`, `menu`, `labels`, `combat`, `components`:
    registries, console commands, menus, name tags and the shared vocabulary;
  - `text`: whitespace, decimal digits and `i32` syntax;
  - `outside`, `maps`: the trusted contracts on `rand`, `rand_chacha` and
    bevy's types and hash map.
- `tests/` runs the library on concrete cases.
- `app/` is a headless server built on bevy's ECS: it keeps the asteroids and
  the puppets around the map in step and runs the console on standard input.
  The floating-point parts (positions, chunk sizes, effects) live there.
