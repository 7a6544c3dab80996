# mclauncher_core

The logic of a launcher for Minecraft Bedrock on Windows, verified with Verus.

`src/` is the library. Verus proves the contract of every function in it, except the
few small `external_body` wrappers around calls into `std`, `serde_json`, `roxmltree`
and `time`, whose contracts are trusted and say what those calls do:

- `types.rs`: versions, their channels and package kinds, the names of their game
  directories and download files, and how a game directory is chosen from a listing
  of the working directory.
- `version_list.rs`: the catalogue of versions, read from the UWP and GDK version
  databases (JSON text), from their caches and from the imported-versions
  directory, with the rules for marking versions new. The proof functions at the end
  state what every read keeps (old versions stay, names once known stay known, cache
  reads mark nothing new, reading the same data twice marks nothing new the second
  time, a cache read of downloaded text gives back the downloaded versions, importing
  twice adds nothing).
- `wu_protocol.rs`: the Windows Update SOAP request for package urls, and the
  reading of its response.
- `downloader.rs`: which url a package is fetched from.
- `services.rs`, `launcher.rs`: what the launcher window shows: required system
  services, developer mode, installed packages, the version tabs, download plans.
- `json.rs`, `text.rs`, `error.rs`, `prefs.rs`: the JSON model, string helpers, the
  error type and the settings.

`app/` is the program around it: file and network I/O, the Windows service and
package queries, the registry, and the native Windows window.
