//! Verified core of a CHUNITHM compatibility layer: serial board protocols,
//! emulated device state, patch planning and the pure decisions behind the
//! Win32 hooks.
pub mod hresult;
pub mod frame;
pub mod led;
pub mod bytes;
pub mod uart;
pub mod com_name;
pub mod uart_irp;
pub mod serial;
pub mod led_host;
pub mod slider;
pub mod unlocker;
pub mod national_match;
pub mod iobuf;
pub mod system;
pub mod system_config;
pub mod config;
pub mod clock;
pub mod module_registry;
pub mod vfs;
pub mod display;
pub mod loader;
pub mod patch_engine;
pub mod network_patch;
pub mod patches;
pub mod early_patch;
pub mod late_patches;
pub mod x86_decoder;
pub mod platform;
pub mod wide;
pub mod io4;
pub mod reg_hook;
pub mod path_hook;
pub mod setupapi;
pub mod proc_addr;
pub mod hook_table;
pub mod iohook;
pub mod text;
pub mod exit_trace;
pub mod present;
pub mod tree_walk;
pub mod xml_idempotence;
