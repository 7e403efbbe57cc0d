//! What the library decides for the engine that answers prompts.

pub mod llm_engine;
