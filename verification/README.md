# bcd_clock

The logic of a desk clock built on an ESP32 board with a 320×172 screen and one
push button, written in Verus and proved against its contracts.

`src/` is the verified library:

- `time.rs`: the time of day, ticking, setting hours and minutes, the
  setting modes, and the laws that ticking obeys.
- `button.rs`: turning samples of the button line into short and long presses.
- `clock.rs`: the main loop's decisions: button handling, and when and how to
  redraw the screen.
- `time_sync.rs`: the network time synchronisation as a state machine, the
  reading of the time-zone service's reply, and the conversion of a server
  time to local time.
- `ui.rs`: the screens, the network information and its text.
- `ui_bcd.rs`, `ui_arc.rs`: the layout of the binary face and the ring face.
- `display.rs`: mapping the landscape picture onto the upright panel.
- `text.rs`: decimal numbers, white space, trimming, integer parsing, and
  writing into a bounded text buffer.
- `tz_name.rs`: the bounded string (from `heapless`) that holds a zone name.

`app/` is the firmware around it: hardware set-up, the async tasks that run the
library's state machines, and the drawing with `embedded-graphics`.
