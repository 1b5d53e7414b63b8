//! Verified core of an offline PDF merge/compress tool.
pub mod chunking;
pub mod commands;
pub mod health;
pub mod ids;
pub mod inspect;
pub mod jobs;
pub mod launch;
pub mod launcher;
pub mod lookup;
pub mod machine;
pub mod paths;
pub mod pipeline;
pub mod pipeline_laws;
pub mod presets;
pub mod run_laws;
pub mod text;
pub mod tools;
pub mod walk;
