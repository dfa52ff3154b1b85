# vdsleep

VDSleep follows a Virtual Desktop VR headset with the PC: when a headset
connects to the streamer, the desktop output moves to a chosen display (for
example a virtual display driver), and when it disconnects, the layout
recorded at startup comes back; the sound can be muted while the headset is
away, and a restore can wait for a chosen key.

Layout:

- `src/` — the verified library (Verus):
  - `text.rs`: character-level text operations (trim, search, split,
    case folding, decimal formatting) with their specifications;
  - `display.rs`: monitor and mode records, and the switch/restore state
    of the display controller (baseline, cooldown);
  - `display/native.rs`: identifying and naming monitors, merging CCD paths
    with GDI devices, ordering, and planning switches, restores and mode
    changes;
  - `monitor.rs`: detection of the streamer and of a streaming headset, and
    the debounced connection state;
  - `keyboard.rs`, `power.rs`: the restore key and resume detection;
  - `audio.rs`: mute and silencing of playback devices;
  - `config.rs`: saved settings and their updates;
  - `session.rs`: reactions to connection changes, the restore key,
    resume and settings changes.
- `tests/` — tests of the library.
- `app/` — the Windows application around it: Win32 and Core Audio calls,
  process and TCP tables, JSON files, threads and the Tauri shell.
