# ears

The core of a voice dictation app, verified with Verus: press a shortcut,
speak, and the speech is transcribed through an OpenAI-compatible API.

- `src/` is the verified library:
  - `text.rs`: whitespace trimming, prefix and substring search, previews,
    lexicographic order and sorting of strings;
  - `state.rs`: settings with their defaults, the recording state machine;
  - `live.rs`: base-URL validation, the voice-activity segmenter, preview
    commits, WAV framing, the transcription request and the choice of the
    final transcript;
  - `commands.rs`: the settings shown to the renderer, settings persistence
    and saving, status, history and its file, the provider model list, and the steps of
    starting and stopping a dictation;
  - `models.rs`, `tray.rs`, `transcribe.rs`: the model catalogue and download
    bookkeeping, tray texts, and the assembly of local transcription segments.
- `app/` is the Tauri program around it: windows, tray, audio capture,
  signal processing, HTTP, files and the settings store.
- `tests/` exercises the library on concrete values.
