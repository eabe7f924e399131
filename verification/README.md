# tuicr_view

The verified core of a terminal code-review viewer, written in Verus.

- `src/` is the library. Every function in it carries a `requires`/`ensures`
  contract that Verus proves:
  - `modes`: input modes, messages and scrolling state.
  - `text`: styled spans, display widths and decimal numbers.
  - `word_wrap`: soft wrapping of long diff rows.
  - `markdown`: Markdown rendering over `pulldown_cmark`'s event stream.
  - `viewport`: the rows, window, comment blocks and gaps of the diff document.
  - `unified` and `side_by_side`: layout of the rows of both diff views.
  - `pr_details`: the pull-request details popup.

  Laws that relate several functions are public proof functions named
  `law_*`.
- Calls into `unicode-width`, `pulldown-cmark` and `ratatui` go through small
  trusted wrappers whose doc comments say what is assumed of them.
- `app/` holds the ratatui drawing around the library.
- `tests/` holds executable tests of the library.
