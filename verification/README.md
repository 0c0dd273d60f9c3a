# segestria_core

The core of Segestria, a Minecraft launcher for one modded server: it finds
Java, installs the vanilla game and Forge, keeps the mods folder in step with
the modpack, builds the game's command line and pings the server.

The library (`src/`) is written in Verus and proved: public functions state
what they return (apart from what depends on the machine alone, such as its
total RAM), and the properties that span functions are proof functions
(`lemma_*`).

- `minecraft/rules.rs`: the `rules` of the version files (last matching rule wins).
- `minecraft/version_manifest.rs`: version files, library keys, and the
  flattening of an `inheritsFrom` chain.
- `minecraft/download.rs`: what to download where, checksums, Maven paths,
  temporary file names, which archive entries to unpack.
- `minecraft/launch.rs`: JVM flags, placeholders, the command line.
- `minecraft/java.rs`, `forge/`, `mods.rs`, `paths.rs`, `profile.rs`,
  `progress.rs`: Java detection, Forge installation, the modpack, the folders,
  settings and the offline UUID, progress messages.
- `server_status.rs`: the Server List Ping protocol (VarInt, strings, packets).
- `text.rs`, `strmap.rs`: text operations and a string-keyed map used by the above.

`app/` is the unverified shell: HTTP, disk, zip, processes, the TCP ping and
the "play" pipeline that strings the library's decisions together.
