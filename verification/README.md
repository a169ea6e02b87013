# recipe

A picture browser's core, verified with Verus. The library (`src/`) holds the
logic; `app/` holds the window and the file-system work around it.

- `text`: decimal rendering, suffix tests, and the order of file names.
- `number`: reading a decimal `i32` from text.
- `dirlist`: which directory entries are pictures, and their sorted list.
- `nextgroup`: checking the "From"/"To" fields and moving to the next group.
- `gallery`: thumbnails, the picked state, filters, the column layout.
- `rotate`: planning and reporting the turning of picked pictures.
- `state`: the main window's state and how each action changes it.
- `chooser`: the directory chooser's "change directory" decision.
- `imaging`: the calls into the `image` and `little_exif` crates.
