//! A project-scaffolding library: it renders a template directory tree —
//! whose path segments and file contents may hold `{{ variable }}`
//! expressions — into a new project directory, under a configurable policy
//! for destination conflicts.
//!
//! The heart is the render engine in [`render`]: it builds a complete
//! in-memory plan before anything is written, so conflict checking and
//! committing are separate phases and a templating failure never leaves
//! partial output. Around it stand the substitution capability
//! ([`template`]), the configuration schemas ([`config`], [`config2`],
//! [`prompt`]), and the helpers that resolve where a template comes from
//! ([`repository`], [`source`], [`cache`]).

pub mod cache;
pub mod config;
pub mod config2;
pub mod error;
pub mod invocation;
pub mod literal_value;
pub mod prompt;
pub mod render;
pub mod repository;
pub mod source;
pub mod strutil;
pub mod template;
