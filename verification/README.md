# logibar

A desktop widget that shows the battery of Logitech wireless devices, over HID++.

`src/` is the library: everything the widget decides, verified with Verus. It does no
input or output. A conversation with a receiver or a device is a state machine: `action`
(or `ask`) names what is to be done, and the `on_*` methods take what came of it. Each
machine has a view of plain values; the `after_*` spec functions on the view say what
each step does, and the contracts of the `on_*` methods say that they do just that. The
proof functions named `law_*` state what holds of whole conversations.

| module | what it holds |
| --- | --- |
| `text` | numbers, hexadecimal, splitting and searching text |
| `model` | battery readings and the order they are shown in |
| `config` | device profiles |
| `device_map` | corrections of device names |
| `widget` | what the widget is told, and where it stands |
| `hid::protocol` | the wire format, report classes, the discharge curve |
| `hid::receiver` | receiver registers and connection notifications |
| `hid::exchange` | one request and its reply, with retries |
| `hid::features` | feature enumeration |
| `hid::name` | reading a device's name |
| `hid::battery` | battery features |
| `hid::device` | reading one device, cache and profiles |
| `hid::slots` | the slots of a receiver |
| `hid::client` | the worker of a receiver |
| `hid::discovery` | which slots hold a device |
| `hid::poll` | one pass over all receivers |
| `hid::scanner` | which receivers are plugged in |
| `hid::diag` | hardware diagnostics |
| `hid::error` | errors and their texts |

`app/` is ordinary Rust around the library: HID access through `hidapi`, the worker
threads, printing, and the windows. `tests/` runs the library.

Three functions of std are specified without proof: `String::push` (`text`),
`String::from_utf8_lossy` (`hid::name`) and the hashing of `str` (`widget`).
