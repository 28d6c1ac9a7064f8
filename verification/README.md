# hal1210

Ambient light for a desk: an LED strip around the screen that shows the colours along
its edges, and a daemon that other programs can ask for control over the strip.

`src/` is the library. It holds everything that is decided or computed, with contracts
that Verus proves:

- `ledcomm` and `espled`: the packets between the daemon and the strip's controller, the
  controller's deframing and the bytes on its bus.
- `daemoncomm`, `client`, `ids`, `bindings`: messages between the daemon and its clients,
  their framing, the connections and the sessions.
- `bridge`: the daemon itself. Events go in; what is to be sent comes out.
- `led`: the strip's animations and effects, the packets for the mainboard's LEDs.
- `cec` and `kinect`: the television and the camera.
- `wayland`, `gpu`, `shadercomm`, `shaders`: capturing the screen, setting the device up
  and taking it down, and the sums over the screen.
- `cli`: the console.
- `single`, `average`, `text`: arithmetic and text that the others use.

Properties that span several functions stand next to them as public proof functions.
Single-precision results are computed in integers, bit for bit; `single` has the rounding.

`app/` is the program around the library: sockets, serial ports, the compositor, the
graphics device, the terminal. `tests/` run the library on concrete values.
