# jester

The verified core of Jester, a tester for J2534 PassThru devices (CAN
adapters used for vehicle diagnostics on Windows).

- `src/` is the library, checked by Verus:
  - `text` — decimal numbers, Unicode whitespace, string building;
  - `protocol` — the messages of the bridge process (requests, responses);
  - `bridge_client` — the application's side of the bridge: pipe and
    executable names, request IDs, the bridge session;
  - `j2534` — the PassThru API: constants and code names, the layout of
    `PASSTHRU_MSG`, CAN frame and filter encoding, decoding of received
    frames with echo suppression, status checks, the registry device list,
    DLL compatibility from the PE header, the steps of opening a
    connection and the progress each reports;
  - `j2534_unified` — device names and DLL bitness, and how each bridge
    reply becomes a result;
  - `commands` — the front end's commands: filter names, device selection,
    session bookkeeping.
- `app/` is ordinary Rust around it: JSON forms of the types, the bridge
  process and named pipe, PassThru DLL calls through `libloading`, the
  Windows registry, file reads, and the command handlers.
- `tests/` exercises the library on concrete values.
