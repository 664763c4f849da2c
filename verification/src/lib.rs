//! A website monitor: it tracks the set of links that a page offers,
//! reports which links appeared and which disappeared, and decides when
//! to notify and when to give up.
pub mod text;
pub mod weburl;
pub mod json;
pub mod link_set;
pub mod bol;
pub mod nike;
pub mod not_text;
pub mod nvidia;
pub mod shopify_variant;
pub mod processing;
pub mod monitor;
pub mod proxy;
pub mod notify;
pub mod discord;
