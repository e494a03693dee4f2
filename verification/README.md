# Soundwave

Soundwave streams the system audio of a Windows machine to an Android phone
over a LAN QUIC connection: 48 kHz stereo 16-bit PCM in audio datagrams, a
reliable control stream for the handshake and heartbeats, certificate pinning
by SHA-256 fingerprint, and a pairing QR code.

The crate `soundwave` (in `src/`) is the part of the system that is verified
with Verus: its functions are proved against their `requires`/`ensures`
contracts, the calls into outside crates go through a small set of trusted
wrappers whose contracts state what those crates do, and the properties the
system relies on are stated and proved as proof functions next to the code
they describe.

## Layout

- `src/protocol/` — the audio datagram wire format (encode, decode and their
  round trips) and the control messages.
- `src/transport/` — control-stream framing, datagram sizing, fingerprint
  pinning, printing and parsing, the pairing URI, server identity decisions
  and the transport error type.
- `src/client/` — the receiver: jitter buffer, bounded PCM ring, receive
  pipeline, session decisions (handshake checks, reconnect backoff) and what
  the platform bridge reads.
- `src/server/` — the sender: block assembly and the capture queue, packet
  duration choice and packetizing, the server handshake, pairing address
  selection, the QR matrix and the window's layout and texts.
- `src/audio_common/` — frame arithmetic and the single-producer,
  single-consumer PCM ring.
- `tests/` — tests that run the library with the real outside crates linked.
- `app/` — ordinary Rust around the library: QUIC and file I/O, postcard
  encoding of control messages, the Android JNI bridge, WASAPI capture, the
  Win32 window, and float-to-PCM conversion.
