# xeneon_core

The core of a dashboard for a wide touch screen: the widget grid and its
placement rules, per-widget appearance, settings and saved state, the
translation catalogs, and the text and figures each widget shows (system
figures, network rates, temperatures, calendar events, weather captions,
the clock). The library in `src/` is written in Verus and verified: every
public function states what it returns in its contract, and the laws that
relate several functions are proof functions beside them.

Layout:

- `src/` — the verified library, one module per concern (`grid`,
  `appearance`, `config`, `i18n`, `widget_state`, `page_state`,
  `persistence`, `assets`, `backup`, `agenda`, `clock`, `network`,
  `sensors`, `system_info`, `media`, `weather`, `shortcuts`, `pins`,
  `fetch`, ...), with `text` holding the character-level helpers the
  parsers share.
- `app/` — plain Rust around it: reading and writing the settings
  directory, `/proc` and `/sys`, archives, the machine's time zone, the
  weather service, and the float formatting the library leaves out.
- `tests/` — tests of the library through its public interface.
