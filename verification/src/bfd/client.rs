//! BFD sessions, as routing protocols see them.

use vstd::prelude::*;

use crate::ip::IpAddr;

verus! {

/// Parameters that routing protocols ask for.
#[derive(Clone, Copy, Debug, PartialEq, Eq, Structural)]
pub struct ClientCfg {
    pub local_multiplier: u8,
    pub min_tx: u32,
    pub min_rx: u32,
}

/// States of a session.
#[derive(Clone, Copy, Debug, PartialEq, Eq, Structural)]
pub enum State {
    AdminDown,
    Down,
    Init,
    Up,
}

/// Identifies a session.
#[allow(inconsistent_fields)]
pub enum SessionKey {
    IpSingleHop { ifname: String, dst: IpAddr },
    IpMultihop { src: IpAddr, dst: IpAddr },
}

#[allow(inconsistent_fields)]
pub enum SessionKeyView {
    IpSingleHop { ifname: Seq<char>, dst: IpAddr },
    IpMultihop { src: IpAddr, dst: IpAddr },
}

impl View for SessionKey {
    type V = SessionKeyView;

    open spec fn view(&self) -> SessionKeyView {
        match *self {
            SessionKey::IpSingleHop { ifname, dst } => SessionKeyView::IpSingleHop { ifname: ifname@, dst },
            SessionKey::IpMultihop { src, dst } => SessionKeyView::IpMultihop { src, dst },
        }
    }
}

impl SessionKey {
    /// Whether two keys identify the same session.
    pub fn same(&self, other: &SessionKey) -> (b: bool)
        ensures
            b == (self@ == other@),
    {
        match (self, other) {
            (
                SessionKey::IpSingleHop { ifname: a, dst: x },
                SessionKey::IpSingleHop { ifname: b, dst: y },
            ) => *a == *b && *x == *y,
            (SessionKey::IpMultihop { src: a, dst: x }, SessionKey::IpMultihop { src: b, dst: y }) => *a == *b && *x
                == *y,
            _ => false,
        }
    }
}

} // verus!
