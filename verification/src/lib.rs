use vstd::prelude::*;

pub mod text;
pub mod registry_parse;
pub mod json;
pub mod vocabulary;
pub mod reviewer;
pub mod risk_laws;
pub mod laws;
pub mod glove;
pub mod macos;
pub mod adapter;
