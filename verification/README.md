# cartridge

The verified core of the CartridgeOS launcher for Linux handhelds.

`src/` is a Verus library: input handling (raw events to button presses
with key repeat), the widgets' navigation (lists, grids, tables, tabs,
dialogs, the on-screen keyboard), the launcher screens as state machines,
the launcher's data (installed apps, recent launches, settings), the
simulated device, `/proc` and tool-output parsers, text wrapping against a
font measurer, and small formatting helpers. Every function carries a
contract that Verus proves; laws that span functions are public proof
functions.

`app/` is plain Rust around it: files, environment, processes, clocks,
serde copies of the persisted types, and the floating-point statistics.

`tests/` exercises the library on concrete values.
