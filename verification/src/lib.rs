//! Monitor and control Pinecil soldering irons over Bluetooth Low Energy.

pub mod ble;
pub mod driver;
pub mod driver_laws;
pub mod event_laws;
pub mod idmap;
pub mod monitor;
pub mod monitor_laws;
pub mod palette;
pub mod palette_laws;
pub mod panel;
pub mod panel_laws;
pub mod pinecil;
pub mod pinecil_laws;
pub mod poll_laws;
pub mod protocol;
pub mod protocol_laws;
pub mod scan_laws;
pub mod screen_laws;
pub mod screens;
pub mod single;
pub mod single_laws;
pub mod system_laws;
pub mod text;
pub mod text_laws;
pub mod uuids;
pub mod view_laws;
