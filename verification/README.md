# bela

The logic of a safe Rust API for the Bela embedded audio platform,
written in Verus: each function carries a contract that says what it
returns or changes, and the laws the library promises are proved.

## Layout

`src/` is the verified library:

- `application`: how a block's frames are split between render threads.
- `runtime`: the claims that keep the audio callbacks' phases apart, and
  the decisions about which callback may reach the application.
- `singleton`: the process-wide claim on the audio system, with its
  terminal poisoned state.
- `settings`: the overrides an application builds, how they are written
  over libbela's defaults, and the checks made on what they resolve to.
- `midi`, `midi_out`: MIDI messages to and from the wire, the seven-bit
  value types, the bounded per-thread output queues and the drain that
  empties them in thread order.
- `fft`: the transform lengths libbela's FFT accepts.
- `digital`: the digital frame words (pin values and directions) and
  where a render thread's share of an interleaved buffer lies.
- `print`: messages assembled in a buffer of fixed size, cut on a `char`
  boundary and marked when they do not fit.
- `task`: auxiliary task priorities, names, and the generations that
  retire task handles when an audio system is torn down.
- `hardware`, `version`, `level`, `cpu`, `cmdline`, `system`: boards and
  detection modes, versions, level channels, CPU monitoring, command-line
  arguments, and building an audio system in order: the claim, the
  monitoring cycle, the resolved settings' checks, then what libbela's
  answers during the system's life become.
- `vendor`, `generate`, `link_args`: the text handling of the repository
  tasks (reading version macros, `scp` errors, diffs and `SOURCE` files;
  checking the generated bindings) and of the linker arguments build
  scripts hand on.
- `error`, `text`: the error type with its messages, and decimal numbers.

`app/` is the repository task runner (`cargo xtask`): the command line,
running `ssh`, `scp`, `diff` and `bindgen`, reading and writing files,
and printing.

`tests/` holds the tests, run against the compiled library.

Work that only a board can do (calls into libbela through its
bindings, the audio and analog buffers, which hold floating point) is
not part of this crate.

## What is modelled one step at a time

On a board, several threads share the runtime's guard, the MIDI
output queues and their drain flag, and libbela keeps the claim on
the audio system in process-wide state. Here each of these is a value
changed through `&mut self` (the claim a `ClaimState` given back
explicitly), so every contract speaks of one operation after another:
what each step leaves behind is proved, and how the atomics order
concurrent steps is not.
