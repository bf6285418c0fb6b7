# diskanalyzer

A disk usage analyzer for the terminal. It scans a directory or a whole disk, lists what it found by
size, and saves results as JSON to be opened again.

    diskanalyzer
    diskanalyzer open ./diskanalyzer-result.json

| Key | |
| --- | --- |
| `s` | scan the current directory |
| `a` | scan the whole disk |
| `p` / `o` | save to / load from `./diskanalyzer-result.json` |
| `j` / `k`, arrows, Home, End | move the selection |
| `Enter` / `l` | open a directory |
| `u` / `h`, Backspace | go to the parent |
| `b` / `[`, Left | go back in the history |
| `f` / `]`, Right | go forward in the history |
| `d` | delete the selected entry, once confirmed with `y` |
| `q` | quit |

## Layout

`src/` is the library. Its functions have contracts that Verus proves.

- `model`, `order`, `tree`: the tree of entries, the order of a listing, finding, removing and
  summing up. `tree_laws` holds what is true of every tree.
- `scanner`: what becomes of the answers of the file system. `scan_laws` holds what is true of every
  scan.
- `json`, `storage`: saved results. Reading and writing JSON is done by `nojson`.
- `app_model`, `app`: the browser as a state machine. `app_laws` holds what is true of it whatever
  happens.
- `screen`, `layout`: what the screen says and where the question before a deletion stands.
- `command`: the command line.
- `text`, `path`: numerals, columns and comparisons of text; the parent and the last part of a path.

A few functions call code that Verus does not read, and their contracts are not proved: those of
`json` that call `nojson`, `split_in_three` in `layout` (`ratatui::layout::Layout::split`),
`parent_path` and `path_file_name` in `path` (`std::path::Path`) and `unix_clock` in `model`
(`std::time::SystemTime::now`). Each of them says what it claims.

`app/` is the program around it: the terminal, the file system and the tasks of a running scan.
