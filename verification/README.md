# pet_repair

Repairs the Codex desktop pet overlay on Windows when it can no longer be dragged: a short
transaction clears the overlay's layered style for about three seconds and then restores it,
keeping any change the application made meanwhile.

## Layout

- `src/` is the library, written in Verus and verified: the tool's decisions and the parsing
  of what it reads.
  - `identity.rs`: which process and window count as the official overlay.
  - `policy.rs`: when a repair may run (stability, spacing, rate limit, pause, input
    evidence) and how a style is restored.
  - `repair.rs`: the repair transaction's protocol and how its outcome is reported.
  - `background.rs`: the tray application's decisions (what to start, what to show).
  - `interface.rs`: how the interface window takes the background's replies.
  - `gaze.rs`, `transport.rs`: the look-at-mouse bridge's identity checks, pause
    acknowledgements and reply matching.
  - `protocol.rs`, `settings.rs`, `appearance.rs`, `text.rs`: the pipe framing, the
    preferences and log text, the preview bitmap, and text helpers.
- `app/` is the Windows program around it: window and process calls, pipes, files, the
  registry, sockets and JSON. It hands the library plain values and acts on its answers.
- `tests/` runs the library on concrete values.

The interface window is a separate Slint program, with a developer preview that sizes the
window and captures a snapshot. The Slint toolkit is not available here, so that program is
not part of this crate; its decisions are `interface.rs`, and its snapshot's PNG encoding is
`appearance::snapshot_png`.
