# ultrasonic_sim

The decision logic of a 2D ultrasonic sensor simulation, verified with Verus.

- `src/` — the verified library: window panes and camera viewports
  (`viewport`), pause toggling (`pause`), keyboard steering (`steering`),
  sample windows, down-sampling and plot ticks (`sampling`), and the per-ray
  hit history (`hits`).
- `app/` — the Bevy program around it: ECS systems, physics ray casts,
  floating-point signal synthesis and drawing.
- `tests/` — tests of the library on concrete values.
