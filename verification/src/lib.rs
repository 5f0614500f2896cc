//! Verified core of a Govee device bridge.

pub mod strings;
pub mod env;
pub mod hass;
pub mod hass_mqtt;
pub mod temperature;
pub mod undoc_api;
pub mod version_info;
pub mod api_lockout;
pub mod ble;
pub mod cache;
pub mod clock;
pub mod device;
pub mod device_database;
pub mod lan_api;
pub mod iot;
pub mod pfx;
pub mod platform_api;
pub mod quirks;
pub mod rest_api;
pub mod state;
pub mod work_mode;
pub mod entities;
