# quick_capture

The logic of a capture inbox for the desktop: notes, clipboard clips,
links, screenshots, files and voice transcriptions land in one
chronological inbox, can be routed to destinations, and carry the app,
page title and URL they were taken from.

`src/` is a library verified with Verus: every public function states in
its contract what it returns or changes, and the properties that span
several functions are proved as lemmas.

| Module | What it decides |
|---|---|
| `store` | capture kinds and payloads, destinations, the rules for writes, routing and restores, search terms, database paths |
| `kind_detect`, `clipboard`, `drag_drop` | which kind a clipboard snapshot or a dropped file becomes |
| `commands` | the steps behind each user command: duplicate clipboard saves, settings, reveal and open requests, browser tab context |
| `mentions`, `wikilink` | `[[Name]]` mentions in text and the people listing of a folder |
| `kokobrain` | the `kokobrain://capture` URI a routed capture is forwarded with |
| `transcription` | speech-model parameters and the cleaning of its output |
| `recording`, `chunker`, `vad`, `mixer`, `pool`, `audio` | chunking, speech segmentation, mixing windows and buffers of recorded audio; model and recording paths; audio devices |
| `tray`, `dock`, `shortcuts`, `dispatch`, `events` | menus, icons, global shortcuts and the actions they trigger |
| `ids`, `timestamp`, `cli`, `text`, `shell` | capture ids (ULIDs), RFC 3339 timestamps, the listing tool's arguments and lines, text helpers, shell requests |

`app/` is the program around it: the SQLite store, the system clipboard,
the shell, the clock, floating-point audio arithmetic, and the command-line
listing tool. `tests/` exercises the library.
