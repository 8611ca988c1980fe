//! File storage: classification and validation of uploads, object keys,
//! access grants and presigned-URL policies.

pub mod enums;
pub mod error;
pub mod validator;
pub mod avatar;
pub mod paths;
pub mod models;
pub mod access;
pub mod grants;
pub mod upload;
pub mod listing;
