# Arcader Imager

Writes an Arcader OS image (downloaded, or a local file) to a removable
drive, and can read it back to verify it.

- `src/` is the verified library. It holds every decision the imager makes:
  which drives are offered, how the privileged writer is started and how it
  reads its command line, which bytes go to the device and in what sizes,
  when a run is cancelled or fails and with which message, how the read-back
  is judged, and how the window learns how a flash ended. Contracts state
  these exactly; `src/laws.rs` and the `lemma_*` proof functions next to the
  code state what holds across calls.
- `app/` is the program around it: the Tauri window and its commands, the
  disk tools, files, downloads and the device itself.
- `tests/` exercises the library on concrete inputs, including a whole flash
  run against an image and a device held in memory.
