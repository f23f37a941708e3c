# hourglass

A terminal clock that shows how much is left — of the hour, the day, the week, the month,
the year and, given a birth date, of a life.

`src/` is the verified library:

- `calendar` — the proleptic Gregorian calendar as specification (leap years, month
  lengths, day counts) and its lemmas;
- `clock` — dates and times of day, and the calls into `chrono` that compute with them;
- `text` — decimal numerals, white space and trimming on character sequences;
- `theme` — the two palettes and the choice between them from `COLORFGBG`;
- `progress` — the progress rows as exact fractions with their text;
- `args` — command-line flags and environment settings;
- `layout` — widths, bar splitting and row padding;
- `watch` — what a key event does to the live view.

`app/` is the program around it: reading the clock, the arguments and the environment,
floating-point display values, and drawing with `crossterm` and `ratatui`.
