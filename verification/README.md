# rust_radio

An internet radio player for GTK, built on the radio-browser.info directory
and GStreamer. The logic of the player is a library whose behaviour is stated
in contracts and proved with Verus; the window, the network and the audio
pipeline are a thin program around it.

## Layout

- `src/` — the verified library:
  - `text.rs`: character-level helpers (trimming, line splitting, search) with
    their specifications.
  - `station.rs`: stations and browse categories, with their models.
  - `playlist.rs`: the M3U and PLS importers.
  - `api.rs`: request URLs of the directory and the limits on fetched lists.
  - `display.rs`: flags, playback time, tag icons, codec names and row texts.
  - `settings.rs`: preferences and the names they are saved and shown under.
  - `sort.rs`: stable sorting by text keys.
  - `state.rs`: the browsing state and one method per user action.
  - `persist.rs`: what is saved between sessions and how a session starts.
- `tests/` — tests of the library on concrete values.
- `app/` — the GTK application: widgets, HTTP requests, JSON, the audio
  pipeline and the level analyzer.
