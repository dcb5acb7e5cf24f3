# lemoncraft

The verified core of the LemonCraft game: the logic of the client's menu and
HUD widgets, the server's mining progress, metrics sampling and automatic
pickup, the layering of asset packs, the order of the shared ECS systems and
the theme palette.

- `src/` is the library. Every function in it carries a contract that Verus
  proves; the laws of the library (what a sequence of calls guarantees) are
  public proof functions next to the code they are about.
- `tests/` runs the library on concrete values.
- `app/` is the code around the library that Verus does not see: floating
  point screen geometry and colors, clocks, environment variables, the asset
  file system on disk and the serialised components. It calls the library for
  every decision.

Screen positions reach the library in whole pixels, times in whole
nanoseconds (tooltips) or milliseconds (mining), and colors as 8-bit sRGBA.

Not carried over: the drawing and layout of the widgets (they need the
game's renderer, fonts and GUI toolkit), the login and language screens, the
sound cache (a thin layer over the audio library) and the client's `Error`
type (it wraps error types of the game's networking crates). The library holds
the decisions these parts make: what a slot shows, which row or value a
widget takes, which tooltip shows, and the theme colors they use.
