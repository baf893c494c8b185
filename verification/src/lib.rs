//! The decision logic of the compositor's shader pipeline and of parts of its runtime state:
//! shader configuration and its resolution into pass chains, built-in colour filters, program
//! cache keys and cache reconciliation, redraw and throttle state, carousel ring order and panel
//! sources, and the splitting of CLI action batches.

pub mod text;
pub mod global_shader;
pub mod shader_presets;
pub mod region_shader;
pub mod output_shader_config;
pub mod window_shaders;
pub mod output_shader;
pub mod compositor;
pub mod global_chain;
pub mod shaders;
pub mod program_cache;
pub mod program_install;
pub mod decoration_shader;
pub mod focus_ring;
pub mod keyboard_focus;
pub mod cli;
pub mod carousel;
pub mod panel_source;
pub mod pass_wiring;
