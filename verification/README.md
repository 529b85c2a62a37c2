# qview

A terminal viewer for a Gentoo system's Portage data: the installed packages, the
world set and the packages that the repositories offer, with their USE flags and
metadata.

The library under `src/` is verified with Verus. It holds:

- `text`: Unicode whitespace, word and line splitting, trimming, `split_once`,
  substring search and decimal parsing, each stated over character sequences;
- `gentoo`: the package records, the readers of Portage's text files (directory names,
  metadata caches, the world file, `IUSE`/`USE` lists, `SIZE` and `BUILD_TIME`), the
  maintainer search in `metadata.xml` (read with quick-xml), and the queries on the
  loaded data;
- `screens`, `widgets`, `app`, `event`: the state machines behind the screens (what
  each key does), the search popup, the version sorting of the Browse tab, and what
  the widgets show (tab titles, metadata lines, the USE-flag grid, size units);
- laws about them: splitting round-trips, sorting orders and keeps the versions,
  search hits are exactly the matching positions, the tab cycle and the list moves.

`app/` is the program around it: reading the files and the terminal, the loader
thread, and drawing with ratatui.
