# ps1_audio

Audio and multitasking for PlayStation 1 homebrew, with the logic proved
correct by Verus.

- `src/` is the verified library:
  - `spu2/` — the tracker engine (voice assignment per channel, reverb
    routing, row timing, command handling), the voice allocator, the SPU
    register layer and a plain sample bank;
  - `spu/` — the tracker data model (patterns, tracks, songs, envelopes,
    panning), the command bus, reverb presets, sample storage, a sampler
    that reuses the room of released samples, and a frame-driven sequencer;
  - `runtime.rs` — the bookkeeping of the cooperative scheduler: task
    slots, the stack pool, round-robin choice and lazy collection;
  - `dma/` — DMA channel control and SPU control/status register layouts;
  - `helpers.rs` — the on-screen debug log.

  Routines that touch hardware registers do not access memory themselves:
  they append each access, and each pause the hardware needs between
  accesses, in order, to a `Vec<HwOp>` that the platform layer performs.

- `app/` runs on the console: it performs the logged accesses, keeps the
  scheduler and the command bus in globals, switches task registers, runs
  the blocking playback loops (which yield while a row plays), and holds
  the songs and the demo's render loop.

- `tests/` exercises the library on concrete values.
