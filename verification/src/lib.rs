//! Control logic for a two-motor coil winder: resistor-ladder button decoding,
//! a diffing character-display manager, an HD44780-over-PCF8574 command
//! encoder, a full-stepping stepper-motor model and the user-interface state
//! machine.
pub mod fixed_vec;
pub mod inputs;
pub mod ladder;
pub mod display;
pub mod string_buffer;
pub mod voltage;
pub mod stepper;
pub mod lcd_i2c;
pub mod state;
pub mod monitor;
pub mod screen;
