# Gamehub

The library behind Parch Linux Gamehub, a GTK application that sets a Linux
system up for gaming: it installs game launchers and gaming tools with pacman,
manages Proton, DXVK and VKD3D-Proton builds from GitHub, reports the state of
the graphics stack, and applies gaming tweaks.

- `src/` is the library, verified with Verus: the catalogues of launchers,
  tools and compatibility builds; the pacman command lines; the reading of
  `pacman -Q`, `pacman -Qi`, `lspci` and `glxinfo` output; the reading of
  GitHub's release listings (through serde_json) and which release assets are
  offered; which installed directories belong to which build; the gaming
  tweaks and Steam session steps and the commands they run; shell quoting;
  and the step functions that drive an icon download and a release
  installation.
- `app/` is the GTK program: windows and pages, and every process, file and
  network access, handing what it reads to the library.
- `tests/` runs the library on concrete inputs.
