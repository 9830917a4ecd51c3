# ZeroCast

Zero-configuration LAN screen casting: a sender captures the screen, encodes
H.264 with `ffmpeg`, and streams it over RTP to a receiver found by mDNS-SD.

- `src/` — the verified library (Verus): protocol constants, profile
  negotiation and the QoS ladder, discovery TXT records and the same-machine
  registry format, RTP/RTCP framing, H.264 Annex-B handling and RTP
  packetization, receive-side reordering and reassembly, A/V sync and audio
  playout, the encoder and decoder state around the `ffmpeg` processes, and
  the decisions of the sending loop.
- `app/` — the `zerocast_desktop` command line: sockets, processes, the
  window, screen grabbing, mDNS, files and the Opus codec, all calling into
  the library.
- `tests/` — tests of the library.
