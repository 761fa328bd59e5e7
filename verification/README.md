# skypulse

CRSF (Crossfire) protocol handling and the decision logic of the SkyPulse
ground-control station, verified with Verus.

`src/` is the verified library:

- `crc` — CRC-8/DVB-S2.
- `rc` — stick microseconds to 11-bit CRSF values and the 26-byte
  RC_CHANNELS_PACKED frame (bit-exact packing contract, unpacking round trip).
- `frame` — telemetry frame types (integer readings in the units the frames
  carry) and decoding of one complete frame.
- `parser` — the streaming parser: sync hunt, partial frames, CRC check,
  specified as a byte-by-byte state machine.
- `gamepad` — axis mappings and the per-tick channel/arming state for game
  controllers and transmitters.
- `telemetry` — the station's telemetry state and its update by each frame
  (arming, home position, sensor caps).
- `rtp` — locating the H.265 NAL unit in a received RTP packet.
- `config` — settings with their defaults.

`app/` is the program around it: environment, UDP sockets, SDL2, the axum web
server, Traccar reporting, JSON snapshots, and the floating-point readings
(unit conversions, battery cell detection and warnings, distance and bearing
to home).
