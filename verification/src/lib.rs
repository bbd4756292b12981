//! Verified core of the MC Soft "Chat with us" backend: configuration, the
//! system prompt, the decoding of OpenRouter event streams, the MCP client's
//! protocol logic, the chat endpoint's checks, and the agent loop.
pub mod json;
pub mod text;
pub mod sse;
pub mod openrouter;
pub mod config;
pub mod mcp;
pub mod prompt;
pub mod handler;
pub mod agent;
