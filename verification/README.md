# nexus_launcher

The core of a command-line Minecraft launcher, as a library whose behaviour
is stated in contracts and proved with Verus, and a thin program around it.

- `src/` — the library. Every function has a contract over mathematical
  models (sequences of characters for text and paths, maps for settings).
  - `paths`: the workspace under `~/.minecraft`, path joining and
    containment, maven coordinates, instance names.
  - `java`: reading the Java version a runtime reports, choosing runtimes.
  - `version`: Mojang metadata, the download plan of a game version
    (client, libraries, assets), version listings, the retry policy.
  - `loader`: Fabric/Quilt metadata, addresses, version choice, profile
    files of an instance.
  - `launch`: the launch context, the classpath, the Java command line,
    masking secrets in logs, the identity a game is played with.
  - `crash`: the kept tail of the game's output, crash reports, pruning
    old reports.
  - `modrinth`, `mod_install`: Modrinth records, request URLs, choosing the
    version and file to install, the installed-mods manifest.
  - `config`: the settings files' contents and the `set`, sign-in and
    sign-out updates.
  - `digest`: SHA-1 checks of downloaded files.
  - `listing`: sorted listings of instances and mod files.
  - `cli`: the command line's records.
  - `text`, `assoc`: text operations and association lists used by the
    above.
- `tests/` — tests of the library.
- `app/` — the `nexus` program: command-line parsing, file and network
  I/O, processes, and the JSON/TOML forms of the records.
