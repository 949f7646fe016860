# WinGlide

Keyboard-driven taskbar navigation for Windows 11: cycle through the windows in the order of their
taskbar buttons, uncombine grouped buttons, see and switch virtual desktops.

- `src/` is the verified library: the rules, as functions with contracts that Verus proves. It
  touches no window itself. What the system tells comes in as plain values, and what is to be done
  goes out as plain values.
- `tests/` runs the library on concrete values.
- `app/` is the program around it: windows, messages, hooks, files and the network.

Where to look:

| Topic | Module |
| --- | --- |
| Which windows belong to which button | `taskbar::button_window`, `switcher` |
| Where cycling goes | `taskbar::cycle`, `taskbar::enumerator`, `primary_taskbar` |
| Left-to-right order | `taskbar::order` |
| Uncombining and restoring | `taskbar::uncombine` |
| Which windows count, and their AUMID | `taskbar::window`, `taskbar::aumid` |
| Messages, hotkeys, configuration | `app`, `hotkey`, `config`, `event`, `winevent` |
| Settings window | `setting` |
| Desktop indicator | `virtual_desktop`, `indicator` |
| Log lines and the console | `logging` |
| Updates, tray, autostart, administrator rights, arguments | `updater`, `tray_icon`, `autostart`, `admin`, `cli` |

Each module states its laws as public proof functions whose names begin with `law_`.
