# coil_winder

Control logic for a two-motor coil winder built around an ATmega328P board, an
HD44780 1602 LCD behind a PCF8574 I2C backpack, two resistor-ladder button
pads, a limit switch and two 28BYJ-48 steppers. The logic is written in Verus
and proved against its contracts.

- `src/` — the verified library:
  - `fixed_vec` — a bounded list in a fixed array, so nothing needs a heap;
  - `inputs` — button bitmasks and edge detection;
  - `ladder` — decoding several buttons from one analog reading;
  - `voltage` — ADC reading to millivolts through the divider;
  - `string_buffer` — a fixed-capacity UTF-8 text buffer with decimal output;
  - `display` — the diffing, scrolling character-display manager;
  - `screen` — what a character display shows after the manager's calls, and the calls of a
    redraw cell by cell;
  - `lcd_i2c` — the HD44780-over-PCF8574 command encoding as bus steps;
  - `stepper` — the full-stepping stepper-motor model;
  - `monitor` — the bench monitor's switch list and window scrolling;
  - `state` — the screens of the user interface and their transitions.
- `app/` — the firmware around it: pins, ADC, serial, the I2C bus, delays, the
  interrupt-shared motors and the main loop.
- `tests/` — tests of the library on concrete values.
