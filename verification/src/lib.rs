//! Verified core of an ESP32 LED (PWM) controller firmware: the GPIO
//! configuration table, the LEDC timers and PWM drivers planned from it, the
//! checks applied to HTTP request bodies, the stored Wi-Fi credential record,
//! and the start-up decisions of the device.

pub mod gpio_config;
pub mod pwm;
pub mod credentials;
pub mod request;
pub mod boot;
pub mod timers;
