pub mod estimator;
pub mod kafka;
pub mod model;
pub mod ports;
pub mod progress;
pub mod stream;
pub mod wiring;
