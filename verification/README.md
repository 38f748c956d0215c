# sleuth

SLEUTH (Structured Legal Examination Using Tracked History) is a desktop
viewer for versioned U.S. Code with bill attribution: it shows the element
tree of a version, the text of the selected element with the words that
changed since the previous version marked, the bill behind each change, and
a timeline of the versions.

- `src/` is the library, verified with Verus: the dataset model and its
  lookups, the diff between versions (computed by `words_to_data`), the
  application's state machine, and what each pane shows for a state. The
  contracts state each function's result exactly; the proof functions named
  `law_*` state properties that span functions.
- `tests/` runs the library on concrete values.
- `app/` is the program: it loads datasets with `words_to_data`, draws the
  window with `iced`, and hands each event to the library.
