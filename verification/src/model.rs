//! The coordinator's pure core: amounts, the wallet registry, history and the send state machine.

pub mod amount;
pub mod history;
pub mod registry;
pub mod sends;

pub use crate::model::amount::{format_xmr, is_network, parse_xmr, ATOMIC_PER_XMR, NETWORKS};
pub use crate::model::history::normalize_history;
pub use crate::model::registry::{Registry, WalletMeta};
pub use crate::model::sends::{SendRequest, SendState, Sends, PREVIEW_TTL};
