# touchscreen-instrument

A musical instrument for touch screens on Linux. Touches are read from the
multi-touch device, mapped onto a layout of note areas that is drawn on the
screen, and played either through a small synthesiser or as MIDI notes, both
over JACK.

## Layout

- `src/` is the verified library (Verus):
  - `evdev`: grouping raw input events into synchronised chunks and tracking
    the multi-touch slots;
  - `areas`: shapes, note layouts, the lookup of the note under a touch, and
    the note event of every voice (`note_event_source`);
  - `sound`: MIDI note-on/note-off generation, recognition of controller
    messages, and the status report of the audio thread;
  - `quit`, `guitarix`, `input`, `blindtest`, `utils`: shutdown handlers,
    the guitarix command line, relative pointer input, the latency blind
    test's random pick, and small helpers.
- `tests/` runs the library on concrete values.
- `app/` is the program around it: the command line, the touch device, the
  SDL2 window, the JACK clients and the floating-point synthesiser.

The program lists its options with `--help`; `--dev-mode` shows the layout
without reading a touch screen (sound output still starts as usual).

## Notes

- `Quitter` is owned by one place and `quit` takes `&mut self`: a handle
  shared between threads would need `Arc<Mutex<..>>`, which the verifier
  does not support. Its contracts state, over `call_requires` and
  `call_ensures` of the registered closures and a shutdown clock that every
  handler run advances, that `quit` calls each registered closure once, in
  the order of registration, and the exit closure after them.
- The `Grid2` layout, the default one, has no layout definition; choosing it
  ends the program with an error, so give `--layout Grid` or
  `--layout Parallelograms`.
