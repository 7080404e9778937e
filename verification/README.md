# dashboard

Firmware core of an ESP32-S3 wall dashboard (ILI9341 panel, XPT2046
touch, WS2812 status LED) that shows weather, room sensors, and the load
of a VPS and a host, fed over MQTT, NTP and HTTP.

`src/` is the verified library; every function in it carries a contract
checked by Verus:

- `mqtt`: MQTT 3.1.1 framing (remaining length, CONNECT, SUBSCRIBE,
  PUBLISH, PINGREQ) and PUBLISH parsing, JSON field extraction.
- `net`: UTF-8 trimming and routing of received messages, the broker
  session, the WiFi retry policy, the ping/NTP/weather schedule, broker
  address and port.
- `services`: the NTP request and reply, the weather request and reply.
- `payload`: the fields of the VPS, host and sensor messages.
- `time`: NTP to Europe/Berlin local time, the clock tick.
- `state`, `theme`, `touch`, `display`, `control`, `layout`, `format`,
  `framebuffer`: the shared state, the screens, touch handling, the
  display loop's decisions, text formatting and the framebuffer.
- `icon`: decoding the weather icon pictures (with `minipng`) and which
  of their pixels are drawn.
- `led`, `wifi`: the LED command queue and blink state, the networks to
  try and the masked form of credentials.
- `bounded`, `text`: the `heapless` collections with the contracts of
  the operations used, and text helpers.

`app/` is the firmware around the library: hardware setup, the async
tasks, drawing with `embedded-graphics`, and the readings that are
floating-point numbers. `tests/` runs the library on concrete values.
