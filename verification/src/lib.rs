//! Verified decision logic of a two-dimensional ultrasonic sensor simulation:
//! window split into panes, pause toggling, keyboard steering of the
//! reflector, sample windows of the synthesized echo signal, the
//! down-sampled plot and the per-ray hit history.

pub mod hits;
pub mod pause;
pub mod sampling;
pub mod steering;
pub mod viewport;
