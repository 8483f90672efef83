//! Contact book, tool naming and channel rules of an MCP server that sends
//! messages to a fixed set of recipients over fixed channels: one tool per
//! contact and channel, never a tool with a free address.
pub mod auth;
pub mod channels;
pub mod config;
pub mod logging;
pub mod mcp_server;
pub mod numbers;
pub mod order;
pub mod slug;
pub mod smtp;
pub mod startup;
pub mod telegram;
pub mod text;
