pub mod builder;
pub mod definition;
pub mod diagnostics;
pub mod document;
pub mod hover;
pub mod kinds;
pub mod position;
pub mod provider;
pub mod rename;
pub mod semantic_tokens;
pub mod symbols;
pub mod syntax;
pub mod text;
