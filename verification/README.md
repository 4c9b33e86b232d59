# nhl_input

Verified core of `nhl-input`, a tool that drives a virtual Xbox One
controller (Linux uinput) from Rhai scripts and watches the game through
screenshots and OCR.

- `src/` — the library, verified with Verus:
  - `controller` — buttons, axes, sticks, and the input events they produce
    (key codes, hat values, the device profile);
  - `names` — script names for buttons, axes and sticks, and when a stopped
    script counts as having ended cleanly;
  - `ocr` — OCR result types and the reading of tesseract's TSV output;
  - `capture` — window selection and screenshot file names;
  - `json` — JSON values as step-log validation reads them, and the reading
    of JSON text (through `serde_json`);
  - `steplog` — step-log validation (from the files' text), the provenance
    record that OCR sidecars keep, run-id neutrality and OCR text matching;
  - `daemon` — JSON escaping, and the daemon's logging enforcement and
    replies;
  - `text` — character-level string utilities.
- `app/` — the command-line program: argument parsing, files, sockets, the
  uinput device, window capture, the OCR engine and the script engine.
- `tests/` — tests of the library.
