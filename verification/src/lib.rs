//! Verified core of a live subagent panel.

pub mod actions;
pub mod agent;
pub mod agent_laws;
pub mod basic_laws;
pub mod chat_laws;
pub mod chat_widget;
pub mod clock;
pub mod collab_laws;
pub mod dashboard;
pub mod dashboard_laws;
pub mod display_laws;
pub mod panel;
pub mod panel_laws;
pub mod protocol;
pub mod registry;
pub mod registry_laws;
pub mod reply;
pub mod scroll;
pub mod settings_popups;
pub mod sort;
pub mod status;
pub mod styled;
pub mod text;
pub mod text_laws;
pub mod text_map;
pub mod thread_id;
pub mod tool_lifecycle;
pub mod tracking_laws;
pub mod transcript_laws;
