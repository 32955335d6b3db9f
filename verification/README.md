# todo_tui

A terminal TO-DO list manager. Lists are JSON files under `./todos/`; the
program moves between menus with the arrow keys and Enter.

- `src/` is the library, verified with Verus:
  - `text` — character operations (replace, remove, cut at a character,
    join, ASCII lowering, decimal numbers, comparison);
  - `words` — trimming, splitting into words, capitalising, and how file
    names are shown in menus;
  - `menu` — keyboard navigation of a menu and the lines it is drawn with;
  - `todos` — a list as the viewing screen shows and edits it (marking,
    commands, creating, toggling, undoing the screen's changes);
  - `files` — list names and the paths of their files;
  - `screens` — titles, menus and choices of each screen;
  - `unicode` — the whitespace set, and the call into the standard
    library's uppercase mapping with the contract it is trusted to meet;
  - `paint` — lines made of plain and bold coloured pieces, written through
    crossterm's styling, with the contract that call is trusted to meet.
- `app/` is the program: terminal, keyboard, files and JSON.
- `tests/` runs the library on concrete values.
