//! A schema compiler. Type declarations (records, discriminated unions,
//! constant enumerations, aliases and function aliases, with a small
//! vocabulary of REST annotations) are scanned into one canonical model,
//! rewritten by the skip and rename passes, and rendered to an API-description
//! document, Swift 5 or TypeScript 4.

pub mod span;
pub mod model;
pub mod log;
pub mod syntax;
pub mod text;
pub mod attr;
pub mod ty;
pub mod scan;
pub mod skip;
pub mod rename;
pub mod keyed;
pub mod openapi3;
pub mod swift5;
pub mod typescript4;
pub mod rest;
