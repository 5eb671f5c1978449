# mycelium

A LilyGo T-Deck hardware emulator whose device models are verified with
Verus: native firmware runs against virtual peripherals, and several virtual
nodes share one simulation clock.

## Layout

- `src/` — the verified library. Each module states its behaviour as
  `requires`/`ensures` contracts over mathematical views, and the laws that
  tie operations together are public proof functions named `law_*`.
  - `partition`, `nvs`, `nvs_image`, `sorted`, `keyed` — flash partition
    layouts, the Preferences/NVS store and its JSON image.
  - `gt911`, `i2c_keyboard`, `wire_shim`, `input` — touch controller,
    keyboard co-processor, the shared I2C bus and host-input routing.
  - `st7789`, `framebuffer`, `window`, `display_config`, `lvgl`,
    `lvgl_v8`, `shared_spi` — the panel controller, RGB565 framebuffers,
    screenshots, the LVGL v8/v9 display backends and the SPI bus arbiter.
  - `storage`, `sd_files` — path confinement for SPIFFS and the SD card,
    and the table of open SD files.
  - `nmea`, `radio`, `radio_schedule` — NMEA framing and UART pacing,
    LoRa airtime, channel collisions, radio node ids, and when packets on
    the shared radio bus may be sent, are delivered and are retained.
  - `buzzer` — the tone lifecycle and the audio worker's timing decisions.
  - `runtime`, `board`, `text` — instance ids, the simulation clock,
    teardown order, battery state and string helpers.
- `tests/` — scenario tests run against the compiled library.
- `app/` — the command-line program: firmware loading, SDL windows, audio
  and input, host files, GPS movement and other floating-point models.
