//! OmniShell: an ACL-fortified shell with three execution modes (Kids,
//! Agent, Admin), per-profile configuration, themes, history, undo/redo,
//! snapshot tracking, sandbox configuration and a plugin system.

pub mod acl;
pub mod arith;
pub mod audit;
pub mod builtins;
pub mod cli;
pub mod command_step;
pub mod completion;
pub mod config;
pub mod engram_backend;
pub mod error;
pub mod expansion;
pub mod glob_match;
pub mod history;
pub mod lang;
pub mod lexer;
pub mod numbers;
pub mod line_check;
pub mod llm_integration;
pub mod order;
pub mod output;
pub mod paths;
pub mod picker;
pub mod picture;
pub mod plugin;
pub mod profile;
pub mod redirects;
pub mod restore;
pub mod sandbox;
pub mod shell_ast;
pub mod shell_eval;
pub mod shell_semantics;
pub mod shell_test;
pub mod single_command;
pub mod snapshot;
pub mod text;
pub mod theme;
pub mod undo;
pub mod words;

pub use acl::{AclEngine, AclRule, ArgConstraint, Verdict};
pub use config::OmniShellConfig;
pub use error::OmniShellError;
pub use plugin::{OmniShellBuilder, OmniShellPlugin, PluginContext, PluginMeta};
pub use profile::{Mode, Profile};
pub use snapshot::{Snapshot, SnapshotEngine, SnapshotPhase};
pub use undo::UndoStack;
