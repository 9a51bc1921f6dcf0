//! The fleet client of herdr: the registry of remote instances, the commands
//! that edit it, and the decisions of the client that shows several instances
//! behind one sidebar.

pub mod action_laws;
pub mod app_state;
pub mod compare;
pub mod event_laws;
pub mod fleet_events;
pub mod fleet_state;
pub mod frame;
pub mod graphics;
pub mod ids;
pub mod input_laws;
pub mod instance;
pub mod loop_laws;
pub mod messages;
pub mod names;
pub mod projection;
pub mod raw_input;
pub mod reconnect;
pub mod registry;
pub mod registry_laws;
pub mod remote_command;
pub mod render;
pub mod routes;
pub mod row_laws;
pub mod run_loop;
pub mod sidebar;
pub mod sidebar_actions;
pub mod sidebar_builder;
pub mod sidebar_laws;
pub mod snapshot;
pub mod startup;
pub mod state_laws;
pub mod terminal_theme;
pub mod text;
pub mod tokens;
pub mod visual;
pub mod watch;
