# heretek

A terminal front end for gdb, with its logic verified by Verus.

- `src/` is the library: the state of the front end, and what keys and lines of input do to it.
  - `app`: the state and its model
  - `event`: what a key does
  - `keys`: which command a key gives
  - `line`: what a line of input does
  - `history`: going back to earlier lines
  - `mapping`: references to mapped regions in a line
  - `mi`: memory regions and requests to gdb
  - `input`: the input line
  - `buffer`, `mode`, `path`, `scroll`, `text`, `title`: what these are made of
- `tests/` runs the library.
- `app/` is the program: the terminal, the connection to gdb, drawing, logging.

Matching of references is done by the crate `regex`, editing of the input line by `tui-input`;
`mapping::replace_all` and `input::edit` state what is relied on.
