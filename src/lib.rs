//! Dual-output static site builder: gemtext sources are transpiled to HTML
//! pages and wrapped as gemini capsule pages.
pub mod error;
pub mod text;
pub mod directive;
pub mod transpile;
pub mod template;
pub mod route;
pub mod balance;
