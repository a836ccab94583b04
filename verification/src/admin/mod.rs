//! The admin HTTP protocol: joining a cluster, and changing who is in it
//!
//! Two endpoints, each answering a [`Redirect`](redirect::Redirect) so that a request sent to a
//! node that does not lead says where the leader is instead of failing:
//!
//! | endpoint | body | does |
//! | --- | --- | --- |
//! | `POST /api/node_id` | none | Hands out an id no other node has held |
//! | `POST /api/membership` | [`MembershipChange`](membership_change::MembershipChange) | Adds a node, changes its role, or removes it |
//!
//! Two rather than one, because taking an id is not a membership change: it is what lets a node
//! exist, and run, before it is a member of anything. Each membership change also has a body of
//! its own, for a caller that makes only that one.

pub mod add_node;
pub mod change_node_role;
pub mod client;
pub mod membership_change;
pub mod redirect;
pub mod remove_node;
