//! Skills for an agent host: definitions parsed from text, a catalog of them,
//! the record of the active skill, the allow-list that it imposes on tools,
//! and contained access to the files of a skill.

pub mod access;
pub mod activation;
pub mod catalog;
pub mod definition;
pub mod dispatch;
pub mod hooks;
pub mod marketplace;
pub mod paths;
pub mod policy;
pub mod text;
pub mod tools;
pub mod xmpp;
