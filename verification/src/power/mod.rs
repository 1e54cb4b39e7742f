//! Power: sleep and wake, display power, and whether a monitor is attached.

pub mod display;
pub mod display_attached;
pub mod display_attached_linux;
pub mod display_linux;
pub mod events;
pub mod events_linux;
pub mod sync_mqtt;
