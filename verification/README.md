# asciiweather

Real weather, redrawn as procedural ASCII art in the terminal.

The library under `src/` holds the program's logic, each function with a
contract proved by Verus: how a scene is generated from a reading, how it is
composited, framed and coloured, what the cache may serve, what a forecast
reply means, which settings `config set` accepts, and how errors read. The
binary under `app/` does what a proof cannot reach: it parses the command line
with clap, turns terminal key codes into the library's keys, reads and writes files, talks to Open-Meteo with ureq, converts
JSON and TOML through serde, and drives the terminal with crossterm.

Measured quantities are kept in thousandths (27.3 °C is `27_300`) and
coordinates in ten-millionths of a degree; the binary converts at its edge.

```text
src/
├── cli.rs             the command line as values, and what to draw for it
├── config.rs          settings, defaults and `config set`
├── error.rs           user-facing errors and exit codes
├── text.rs            strings and numbers, character by character
├── weather/
│   ├── model.rs       Location, WeatherData, WeatherCondition, Intensity
│   ├── open_meteo.rs  query values, WMO codes, reply normalisation
│   ├── cache.rs       freshness, ages, cache file names
│   └── mod.rs         the cache/provider resolution state machine
├── scene/
│   ├── model.rs       SceneModel, Sprite, Style, Tier
│   ├── primitives.rs  sun, moon, cloud, bolt, fog, wind, horizon
│   ├── generator.rs   weather semantics -> scene
│   ├── rng.rs         deterministic SplitMix64
│   ├── laws.rs        what holds of every generated scene
│   └── plain.rs       `--plain` scenes are pure ASCII
└── render/
    ├── ascii.rs       compositing, framing, captions, forecast
    ├── color.rs       spans and ANSI
    ├── terminal.rs    the width to draw at
    └── animation.rs   what each frame shows and when to stop
```
