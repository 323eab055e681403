//! Closed-loop temperature control for a smoker pit: an averaging filter over
//! thermocouple readings, a proportional-derivative valve controller, decimated
//! trend history, the numbers the status display shows, and the encoder channel
//! that adjusts the setpoint.
pub mod max6675;
pub mod ring;
pub mod control;
pub mod history;
pub mod pitmaster;
pub mod setpoint;
