# epd_reader

The logic of a small reader with an e-paper panel: books set in TrueType or bitmap fonts, pictures,
the weather, a calendar with lunar dates, stock charts and the settings. The library decides; it
touches no hardware. Every function is verified with Verus against its contract.

- `src/` is the library. Pages are state machines: an event and the state before give the state
  after. What is shown is a list of drawing instructions (`draw`). Files are read through functions
  that give bytes from an offset on.
  - `ttf_sd`: font tables, outlines, the filling of glyphs, the glyph cache, pages of text
  - `pages`: the screens and what their keys do
  - `model`: the lunar calendar, forecasts, holidays, prices
  - `sd_mount`: names on the card and long names in its directories
  - `storage`: records in flash, as bytes and back
  - `flash_sleep`, `epd2in9_txt`, `txt_reader`: the picture for sleep, bookmarks, plain pages
  - `display`, `event`, `sleep`, `battery`, `location`, `request`, `weather`, `panic`: the device
- `tests/` runs the library on examples.
- `app/` is the program around it: files stand in for flash and card, and the terminal for the keys.

A public proof function whose name begins with `law_` states what holds of several functions at once.
What is believed of other crates stands above the function that calls them.
