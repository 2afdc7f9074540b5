//! Byte, packet, error and drop counters for one configured network
//! interface.  Monitoring is a silent no-op when no interface is configured
//! or its statistics directory does not exist; a single unreadable counter
//! file leaves only that field unset.

use vstd::prelude::*;

use crate::text::{parse_u64, parse_u64_bytes, trim, trim_slice};

verus! {

/// The eight counters of one interface, each `None` where its file was
/// absent or held no number.
#[derive(Debug, Clone, Copy, PartialEq, Eq)]
pub struct NetSnapshot {
    pub rx_bytes: Option<u64>,
    pub tx_bytes: Option<u64>,
    pub rx_packets: Option<u64>,
    pub tx_packets: Option<u64>,
    pub rx_errors: Option<u64>,
    pub tx_errors: Option<u64>,
    pub rx_dropped: Option<u64>,
    pub tx_dropped: Option<u64>,
}

/// What one statistics file's text denotes: its trimmed content as a
/// number.
pub open spec fn counter_of(text: Seq<u8>) -> Option<u64> {
    parse_u64(trim(text))
}

/// An absent or unreadable counter file reads as nothing.
pub open spec fn opt_counter_of(text: Option<Seq<u8>>) -> Option<u64> {
    match text {
        Some(t) => counter_of(t),
        None => None,
    }
}

/// The snapshot that touches no gauge at all.
pub open spec fn net_disabled() -> NetSnapshot {
    NetSnapshot {
        rx_bytes: None,
        tx_bytes: None,
        rx_packets: None,
        tx_packets: None,
        rx_errors: None,
        tx_errors: None,
        rx_dropped: None,
        tx_dropped: None,
    }
}

/// Reads one statistics file.
pub fn parse_counter(text: &[u8]) -> (r: Option<u64>)
    ensures
        r == counter_of(text@),
{
    parse_u64_bytes(trim_slice(text))
}

/// Builds the interface snapshot of one cycle.  An empty interface name or
/// a missing statistics directory yields the no-op snapshot — monitoring is
/// simply off, not an error.  Otherwise each counter is its file's trimmed
/// number, unset where the file was unreadable or malformed.
pub fn net_snapshot(
    iface: &[u8],
    stats_dir_exists: bool,
    rx_bytes: Option<&[u8]>,
    tx_bytes: Option<&[u8]>,
    rx_packets: Option<&[u8]>,
    tx_packets: Option<&[u8]>,
    rx_errors: Option<&[u8]>,
    tx_errors: Option<&[u8]>,
    rx_dropped: Option<&[u8]>,
    tx_dropped: Option<&[u8]>,
) -> (r: NetSnapshot)
    ensures
        (iface@.len() == 0 || !stats_dir_exists) ==> r == net_disabled(),
        (iface@.len() > 0 && stats_dir_exists) ==> r == (NetSnapshot {
            rx_bytes: opt_counter_of(match rx_bytes {
                Some(t) => Some(t@),
                None => None,
            }),
            tx_bytes: opt_counter_of(match tx_bytes {
                Some(t) => Some(t@),
                None => None,
            }),
            rx_packets: opt_counter_of(match rx_packets {
                Some(t) => Some(t@),
                None => None,
            }),
            tx_packets: opt_counter_of(match tx_packets {
                Some(t) => Some(t@),
                None => None,
            }),
            rx_errors: opt_counter_of(match rx_errors {
                Some(t) => Some(t@),
                None => None,
            }),
            tx_errors: opt_counter_of(match tx_errors {
                Some(t) => Some(t@),
                None => None,
            }),
            rx_dropped: opt_counter_of(match rx_dropped {
                Some(t) => Some(t@),
                None => None,
            }),
            tx_dropped: opt_counter_of(match tx_dropped {
                Some(t) => Some(t@),
                None => None,
            }),
        }),
{
    if iface.len() == 0 || !stats_dir_exists {
        return NetSnapshot {
            rx_bytes: None,
            tx_bytes: None,
            rx_packets: None,
            tx_packets: None,
            rx_errors: None,
            tx_errors: None,
            rx_dropped: None,
            tx_dropped: None,
        };
    }
    NetSnapshot {
        rx_bytes: match rx_bytes {
            Some(t) => parse_counter(t),
            None => None,
        },
        tx_bytes: match tx_bytes {
            Some(t) => parse_counter(t),
            None => None,
        },
        rx_packets: match rx_packets {
            Some(t) => parse_counter(t),
            None => None,
        },
        tx_packets: match tx_packets {
            Some(t) => parse_counter(t),
            None => None,
        },
        rx_errors: match rx_errors {
            Some(t) => parse_counter(t),
            None => None,
        },
        tx_errors: match tx_errors {
            Some(t) => parse_counter(t),
            None => None,
        },
        rx_dropped: match rx_dropped {
            Some(t) => parse_counter(t),
            None => None,
        },
        tx_dropped: match tx_dropped {
            Some(t) => parse_counter(t),
            None => None,
        },
    }
}

} // verus!
