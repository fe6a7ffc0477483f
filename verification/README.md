# audio_filter

A real-time noise-suppression audio tool built around a DeepFilterNet model,
with its core logic verified in Verus.

- `src/` is the verified library:
  - `transfer`: moving a block through a ring buffer piece by piece;
  - `frames`: interleaved frame layout (splitting, padded windows, copying
    mono to every channel);
  - `stream_config`: choosing the output stream configuration of a device;
  - `playback`: the playback cursor of the output stream;
  - `worker`: sizing and per-turn decisions of the denoising worker thread;
  - `views`: the spectrogram and spectrum bar pixel buffers;
  - `editor`: the editor's state machine;
  - `audio`, `filter`: file formats, frame counts, filter kinds.
- `app/` holds the program around it: the editor window, audio devices,
  PipeWire capture, the model, file I/O, and the floating-point signal
  processing.
- `tests/` exercises the library on concrete values.
