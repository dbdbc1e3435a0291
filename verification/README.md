# rust_usb

The logic of a library for USB devices on Windows, Linux and macOS, verified with Verus.

- `src/` is the library. It does no I/O. It parses descriptors, makes requests and reads
  replies, and it decides what a backend does next: which device to list, how to open it, to
  which interface an endpoint belongs, how a transfer ends and what has to be given back.
- `app/` talks to the operating systems: usbfs and udev, the setup API and WinUSB, IOKit, and
  the Tokio runtime. It performs what `src/` says and hands the answers back.
- `tests/` runs the library.

| Module | What it holds |
|---|---|
| `text`, `numeral`, `utf16` | strings, numerals and UTF-16 |
| `error` | the error type |
| `protocol` | descriptors, control requests, pipe policies |
| `backend` | the traits of backends and devices |
| `backend::mock` | a backend for tests without hardware |
| `backend::linux`, `backend::windows`, `backend::macos` | the platforms |
| `api` | contexts, device handles and transfers that run as tasks |
| `hotplug` | arrival and removal of devices |

Where a backend has to ask the system several times, its decisions are a state machine: it says
what it needs, and goes on with the answer. What such a machine does over a whole run is stated
by proof functions whose names begin with `law_`.
