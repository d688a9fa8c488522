//! Query/response core of a game-server catalog: search dispatch over a level
//! catalog, dynamic AND-filter construction, the pipe/colon wire encoding with
//! a pagination footer, and the salted integrity hash over a result set.

pub mod num;
pub mod text;
pub mod model;
pub mod request;
pub mod filter;
pub mod query;
pub mod dispatch;
pub mod encode;
pub mod hash;
pub mod siblings;
pub mod laws;
