//! Endpoint lists to proxy-client subscriptions.
//!
//! Text lines and CSV rows become endpoints (`line`, `source`); endpoints are merged
//! across sources (`collect`), filtered by port class and paged (`select`); each endpoint
//! is turned into a node from a pool of credential templates (`yaml`, `node`, `render`);
//! the nodes are assembled into the payload of the requested target (`assemble`,
//! `overlay`).

pub mod text;
pub mod num;
pub mod line;
pub mod source;
pub mod collect;
pub mod select;
pub mod yaml;
pub mod render;
pub mod node;
pub mod assemble;
pub mod overlay;
