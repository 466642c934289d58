pub mod text;
pub mod codec;
pub mod config;
pub mod addr;
pub mod ids;
pub mod mail;
pub mod address;
pub mod msg;
pub mod message;
pub mod events;
pub mod pubsub;
pub mod actor;
pub mod errs;
pub mod catalog;
pub mod registry;
pub mod sysactors;
pub mod sql;
pub mod routing;
pub mod show;
pub mod wire;
