# esp32s3_farmstick

Firmware logic for an ESP32-S3 USB HID controller (3-axis joystick, 4x4 key
matrix, switch button) with two profiles: a FarmSim gamepad and a Macropad
keyboard with 3D mouse look-around.

- `src/` is the verified library (Verus): HID report layouts and their
  descriptors, the key-matrix scan decoding and debouncing, the integer part
  of axis normalization and centre calibration, and the decisions of the
  polling loop (profile shortcut, switch button, report de-duplication).
- `app/` is the firmware around it: pins, ADC, USB, the async loop, and the
  floating-point scaling of joystick values.
- `tests/` runs the library on concrete inputs.
