//! Key scheme, node-side decision logic and client-side collectors for
//! addressing a fleet of orbs over a publish/subscribe overlay.

pub mod orb_actions;
pub mod registry;
pub mod dispatcher;
pub mod shutdown;
pub mod client;
