# led_control

Firmware for an ESP32 that drives LEDs by PWM. On start it reads stored
Wi-Fi credentials; with working credentials it joins the network and serves
a small REST API (`/turn_on`, `/turn_off`, `/dim`, `/status`), otherwise it
opens its own access point with a page to enter credentials.

- `src/` is the verified library (Verus): the GPIO table and the choice of
  PWM drivers and timers (`gpio_config`, `pwm`, `timers`), request checks and the `/status` query
  (`request`), the stored credential record (`credentials`) and the start-up
  state machine (`boot`).
- `app/` is the firmware around it: ESP-IDF drivers, NVS, Wi-Fi, the HTTP
  servers, JSON and YAML (de)serialisation, and the duty computations in
  floating point.
- `tests/` exercises the library on concrete values.
