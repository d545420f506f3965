# oxrdp

A client that shows the windows of remote applications as native ones: one application, one
window. An agent on the guest captures each window and streams it over a purpose-built protocol;
the client decodes the frames, maps every remote window to a native one, and sends input back.

The library under `src/` holds everything that the client decides, and is verified with Verus. It
does no I/O: bytes, events and times come in as values, and what to do about them goes out as
values.

- `proto` is the protocol: the eight-byte chunk header, fragmentation and reassembly per channel,
  the type registry, every message body, key codes, and clock synchronisation. What is written is
  read back, truncated bodies are errors, unknown types are skipped, and a peer cannot make the
  receiver buffer more than its limits.
- `client` is the session: framing over a stream of bytes (`link`), the handshake and the event
  stream (`session`), the window model (`model`), geometry that never mistakes the window manager
  for the user (`geometry`), decoding (`decode`), latency accounting (`latency`), and what the
  session task does about everything that can happen (`driver`, `task`, `headless`).
- `display` is the display layer: commands and events, keyboard and pointer input, pixel formats,
  and what is drawn where.
- `rdp` is the connection sequence of an RDP client, up to the end of channel join.

`app/` is the program around it: sockets and TLS with `tokio` and `rustls`, native windows with
`winit`, `softbuffer` and `x11rb`, decode threads, and logging.

Properties that span several functions are public proof functions whose names begin with `law_`.
What is not proved is marked `Trusted:` in the doc comment of the function concerned: it concerns
`openh264`, `wide`, and a few functions of the standard library.
