//! Verified core of a LilyGo T-Deck hardware emulator: flash partition
//! geometry, Preferences/NVS storage, the GT911 touch controller, the ESP32-C3
//! keyboard co-processor, the shared I2C bus, the ST7789 panel, RGB565
//! framebuffers, storage path confinement, NMEA framing and the simulation
//! clock.

pub mod input;
pub mod keyed;
pub mod lvgl;
pub mod lvgl_v8;
pub mod nmea;
pub mod nvs;
pub mod nvs_image;
pub mod board;
pub mod buzzer;
pub mod display_config;
pub mod framebuffer;
pub mod gt911;
pub mod i2c_keyboard;
pub mod partition;
pub mod radio;
pub mod radio_schedule;
pub mod runtime;
pub mod sd_files;
pub mod shared_spi;
pub mod sorted;
pub mod st7789;
pub mod storage;
pub mod text;
pub mod window;
pub mod wire_shim;
