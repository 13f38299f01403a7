pub mod abstractdata;
pub mod allocation;
pub mod analysis;
pub mod command_line;
pub mod completion;
pub mod default_hook;
pub mod describe;
pub mod hook_helpers;
pub mod llvmtype;
pub mod well_founded;
pub mod namemap;
pub mod outcome;
pub mod path_statistics;
pub mod pitchfork_config;
pub mod progress;
pub mod secret;
