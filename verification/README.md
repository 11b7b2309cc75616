# ScreenRecall

ScreenRecall records the screen at a fixed interval, keeps a frame only when
it differs from the last kept one, reads its text with Tesseract, embeds that
text for semantic search, lets an LLM answer questions about what was on
screen, and packs old frames into video segments with FFmpeg.

## Layout

- `src/` — the decision logic, verified with Verus. Each public function
  states in its contract what it returns. The main parts:
  - `capture`: difference hashing, Hamming distance, the adaptive
    classification of noisy monitors and the merge plan for their frames;
  - `stats`, `capture_perf`, `worker_activity`: rolling timing windows and
    their summaries (min, median, 95th percentile, max);
  - `archive`: encoder presets and detection, the archiver's run window
    and status, grouping frames into segments, the FFmpeg concat list and
    command lines;
  - `embed`, `search`, `stream`, `llm`: which server answers, retry on
    oversized input, full-text query building, stream framing, and chat
    prompt assembly;
  - `shell`, `commands`, `runtime`, `util`, `paths`, `ocr`, `config`,
    `state`: launch planning for managed servers, UI command decisions,
    the disk monitor, platform helpers, storage paths and settings.
- `tests/` — tests of the library on concrete values.
- `app/` — the desktop program around the library: the window and tray,
  screen capture, the SQLite store, HTTP clients, subprocesses and files.
