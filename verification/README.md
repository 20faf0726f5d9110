# mirrorx_core

The capture side of a remote-desktop core, with its logic proved in Verus.

- `src/` is the verified library:
  - `mask.rs` composites monochrome and masked-colour pointer shapes onto the desktop
    patch beneath the pointer;
  - `cursor.rs` clips the pointer to the desktop and works out the layout, texture and
    quad it is drawn with;
  - `capture.rs` holds the retry rule for frame acquisition, the sizes of the
    luminance and chrominance planes, and the captured frame;
  - `device.rs` chooses the driver type and the display output to duplicate;
  - `bridge.rs` settles the results of calls handed to the async runtime.
- `app/` drives Direct3D 11 and DXGI, runs the async runtime and exports the API; it
  asks the library for every decision.
- `tests/` runs the library on concrete values.
