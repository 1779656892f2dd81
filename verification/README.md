# letsnote-wheelpad

A userland daemon that brings circular scrolling to the round touchpad of
Panasonic Let's Note laptops on Linux. It takes the physical touchpad over and
forwards its events to a virtual one. A finger that circles near the rim turns a
virtual wheel instead of moving the cursor.

What the daemon decides is a library that Verus verifies. The daemon around it
reads and writes the devices.

## Layout

- `src/` is the verified library.
  - `event`: input events.
  - `evdev`: the state of the touchpad, and how its events make frames.
  - `fsm`: the session of one contact, from touch to scroll to lift.
  - `router`: which events reach the virtual touchpad.
  - `wheel`: from turns of the finger to movements of the wheel.
  - `proxy`: one frame at a time, through the session and the router.
  - `event_loop`: what the daemon does next, and how it ends.
  - `config`, `float64`: the configuration and its ranges.
  - `runtime`: the instance lock, the runtime directory, the signals.
  - `startup`: the choices between arguments and configuration, and the order in
    which the daemon is started.
  - `pattern`, `search`: the touchpad whose name matches a pattern.
  - `text`, `error`: numbers and paths as text, and the errors.
- `tests/` holds the tests of the library.
- `app/` is the daemon. It also measures the gesture, in floating point: the
  library is told whether a touch lies in the dead zone, whether it has swept
  the trigger angle, and how far it has turned.

## What is proved

Each function states its result exactly. The functions named `law_..` state what
holds across functions. Among them:

- The cursor rests while a contact scrolls, and other contacts are not withheld.
- Outside a scroll every event passes.
- Only positions are ever kept back.
- A frame is forwarded before the next one is processed, or the loop stops.
- A signal is looked at before the touchpad.
- Only a requested shutdown is a success.
- Accepted settings lie in their ranges, and so do the defaults.
- The touchpad is grabbed only once signals are blocked, the instance lock is held
  and both virtual devices exist.
- A contact that has vanished is lifted, even while another finger stays down.
- An accepted runtime directory is one absolute path, private to its owner.
- A live instance keeps others away from its device; a stale lock file does not.
- Two devices never share a lock file.

What is not proved is how the `regex` crate compiles and matches a pattern:
`src/pattern.rs` declares what the library relies on.
