//! Input devices: joysticks and the ADC that reads them.

pub mod adc;
pub mod joystick;
pub mod joystick_power;
