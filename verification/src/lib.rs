//! A WeChat official-account robot: classifies incoming messages and
//! composes the XML replies, keeps the set of users that were already
//! greeted, and builds the requests that rebuild the account's menu.
pub mod text;
pub mod serialize;
pub mod server;
