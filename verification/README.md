# dockerbeam

The decision and message logic of DockerBeam, a peer-to-peer tool that moves
Docker images between two machines over a WebRTC data channel, written in Verus
and verified.

- `src/` is the verified library:
  - `text`: prefix, substring, trimming, splitting and decimal numbers over characters;
  - `transfer`: the data-channel protocol (`FILE_NAME:`, `FILE_SIZE:`, binary chunks,
    `END_OF_TRANSFER`) and the proof that a transfer delivers the image intact when
    the messages arrive in the order sent, which the ordered data channel ensures;
  - `clientbeam`: the sending end (messages, flow control, progress, signalling decisions);
  - `serverbeacon`: the receiving end's signalling decisions;
  - `webrtc_control`: payload classification, the receiving end of the data channel,
    reactions to connection state changes, connection settings;
  - `connection_handler`: signalling messages and the checks on the server address;
  - `cli`, `io`: the command line, and where files go.
- `app/` is the program around it: the Docker engine, the network, the terminal.
  It reads the signalling server address from `DOCKERBEAM_SERVER` and the path of
  its root certificate (PEM) from `DOCKERBEAM_ROOT_CA`, from the environment or a
  `.env` file.
- `tests/` exercises the library on concrete values.
