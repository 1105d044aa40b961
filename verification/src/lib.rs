//! Action system core: paths, actions and action sets, binding selection,
//! compound (sticky) actions, input aggregation and device bookkeeping.

pub mod action;
pub mod action_hierarchy;
pub mod action_type;
pub mod activator;
pub mod application;
pub mod application_instance;
pub mod binding;
pub mod binding_layout;
pub mod compound_action;
pub mod controller_paths;
pub mod device_config;
pub mod device_paths;
pub mod device_type;
pub mod driver_interface;
pub mod error;
pub mod facade;
pub mod input_events;
pub mod instance;
pub mod interaction_profile;
pub mod interaction_profile_state;
pub mod interaction_profile_type;
pub mod interaction_profile_types;
pub mod keyboard;
pub mod motion;
pub mod parallel_arena;
pub mod path_manager;
pub mod path_map;
pub mod paths;
pub mod processed_binding;
pub mod raw_input;
pub mod runtime;
pub mod serial;
pub mod session;
pub mod types;
pub mod windows_paths;
pub mod working_user;
