//! Signed identity tokens: claims, their compact encoding, signing and
//! validation, together with password hashing and refresh tokens.
pub mod model;
pub mod text;
pub mod base64url;
pub mod json;
pub mod json_read;
pub mod json_unique;
pub mod error;
pub mod keys;
pub mod claims;
pub mod encode;
pub mod decode;
pub mod hashing;
pub mod refresh;
pub mod env;
