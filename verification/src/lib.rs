//! Protocol core of a display server: wire codec, frame assembly, the
//! per-client object registry and the request handlers of the core interfaces.

pub mod client;
pub mod dispatch;
pub mod effect;
pub mod error;
pub mod globals;
pub mod laws;
pub mod object;
pub mod receiver;
pub mod utils;
pub mod wire;
pub mod wl_buffer;
pub mod wl_callback;
pub mod wl_compositor;
pub mod wl_display;
pub mod wl_output;
pub mod wl_region;
pub mod wl_registry;
pub mod wl_shm;
pub mod wl_shm_pool;
pub mod wl_surface;
pub mod xdg_wm_base;
