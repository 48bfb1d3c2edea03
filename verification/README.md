# unicorn_matrix

Verified frame-buffer logic for a 16 x 16 RGB LED panel driven over SPI, and
the two network clients that feed it.

- `src/frame.rs`: the frame (start byte + 256 RGB triples), pixel setting,
  clearing, filling, glyph drawing, the scrolling-text window, and laws about them.
- `src/glyph.rs`: a rasterised character as the font renderer returns it.
- `src/text.rs`: laying a string's glyphs out on a 12-row strip.
- `src/mirror.rs`: the UDP mirror protocol (streamed LED colours).
- `src/animation.rs`: the sign's animations and the loop's decisions.
- `src/message.rs`: decoding a sign message (UTF-8, then JSON via serde_json).
- `app/main.rs`: SPI, font rasterisation (floating point), sockets, threads
  and timing; `mirror` or `sign` selects the client.
