# prtsc

A screen capture and recording tool for Linux desktops, built on the XDG
Desktop Portal and PipeWire. Its logic is a library written in Verus: what
each function returns or changes is stated in its contract and proved.

```sh
prtsc                            # one screenshot; prints where it was saved
prtsc record [--audio] [path]    # records until Ctrl-C, to ./recording.mp4
prtsc mcp                        # serves both as MCP tools over stdio
```

## Layout

- `src/` is the library: frames and audio are taken in as they come, encoded
  with `openh264` and `fdk-aac`, and muxed with `mp4` into a file in memory.
  Every call into one of these crates stands behind a small function whose
  doc comment says what is taken on trust of it. The command line and the
  decisions of the MCP server are here too.
- `app/` is the program around it: the portal, PipeWire, files, signals and
  the MCP transport.
- `tests/` runs the library with the real encoders, and reads its files back.

Functions whose names begin with `law_` state what holds across functions:
that samples read back into the NAL units the encoder made, that the cut
between two audio buffers makes no difference, that what was recorded stays,
that there is one recording at a time.
