//! Settings: which engine answers, and the rules of the whole project.

pub mod llm_config;
pub mod project_rules;
