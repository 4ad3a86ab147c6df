use vstd::prelude::*;

pub mod auto_accept;
pub mod config_proxy;
pub mod encoding;
pub mod external;
pub mod friends;
pub mod helper;
pub mod jid;
pub mod json;
pub mod launch;
pub mod lcu;
pub mod models;
pub mod persistence;
pub mod presence;
pub mod session;
pub mod state;
pub mod preview;
pub mod stream;
pub mod tally;
pub mod text;
pub mod tls;
pub mod xml;

verus! {
}
