//! Verified core of the SaCode command-line interface: the persistent task
//! list, plugin / profile / provider catalogs, the learning extractor, the
//! command palette and the pending-question dialog.

pub mod text;
pub mod paths;
pub mod order;
pub mod task_store;
pub mod task_laws;
pub mod plugin_config;
pub mod project_profile;
pub mod name_map;
pub mod provider_config;
pub mod learning;
pub mod runner;
pub mod clock;
pub mod mistakes;
pub mod provider_runtime;
pub mod input;
pub mod commands;
pub mod interaction;
pub mod plugin_view;
pub mod product_path;
pub mod design;
pub mod orchestration;
pub mod audit;
pub mod bootstrap;
pub mod local_command;
pub mod keys;
pub mod loop_task;
pub mod completion;
pub mod words;
pub mod mode;
pub mod profile_command;
pub mod report;
pub mod checkpoint;
pub mod service_commands;
pub mod todo;
pub mod conversation;
pub mod queue;
pub mod history;
pub mod optimize;
pub mod repl;
pub mod git_status;
pub mod scroll;
pub mod agents;
pub mod background;
pub mod theme;
pub mod usage;
pub mod provider_picker;
pub mod sessions;
pub mod tools_view;
pub mod screen;
pub mod json_reply;
