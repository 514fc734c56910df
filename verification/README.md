# pwsw

PipeWire output switching for Wayland: a daemon that watches the open windows,
matches them against configured rules and makes the matching rule's sink the
default PipeWire output, plus commands to inspect and steer it.

The decisions are a library verified with Verus (`src/`):

- `config`: sinks and rules, sink references (position, description or node
  name), validation with its error messages, the file form.
- `state`: the daemon's window tracking and the switch each window event calls
  for, in both priority modes (most recent window, or first rule).
- `compositor`: window events from the compositor protocols (wlr and ext
  foreign-toplevel, KDE Plasma, Sway's i3-ipc, Niri's event stream).
- `pipewire`: reading `pw-dump` objects, profile-switch candidates, the
  activation plan and the arguments of `pw-metadata` and `pw-cli`.
- `ipc`, `daemon`: socket and PID paths, message framing, the daemon's answers
  to client requests.
- `commands`, `notification`: listings, manual switching and cycling, icons and
  notification texts.
- `nasw`: the Niri audio switcher, a standalone daemon with its own settings.
- `text`, `pattern`: string helpers and rule patterns through the `regex` crate.

`app/` is the program around it: command line, configuration file, PipeWire
tools, Wayland and Niri connections, the socket server, notifications and
logging. Run under the name `nasw`, the executable is the Niri audio switcher.
