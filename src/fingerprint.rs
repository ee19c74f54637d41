use crate::rescan::{window_start, window_start_ms, ScanTarget};
use vstd::prelude::*;

verus! {

/// A record counts as currently online when seen within this many seconds.
pub const ONLINE_WINDOW_SECS: u64 = 7200;

/// A record is fingerprinted again after this many seconds.
pub const FINGERPRINT_COOLDOWN_SECS: u64 = 604800;

/// Protocol version assumed for a record that stores none.
pub const DEFAULT_PROTOCOL: i32 = 47;

/// The fingerprinting query: records last seen after `seen_after` that were
/// never fingerprinted or last fingerprinted before `fingerprinted_before`
/// (milliseconds).
#[derive(Clone, Copy, Debug, PartialEq, Eq, Structural)]
pub struct FingerprintQuery {
    pub seen_after: i64,
    pub fingerprinted_before: i64,
}

/// A record matches the fingerprinting query.
pub open spec fn fingerprint_eligible(q: FingerprintQuery, last_seen: i64, fingerprinted: Option<i64>) -> bool {
    last_seen > q.seen_after && match fingerprinted {
        Some(t) => t < q.fingerprinted_before,
        None => true,
    }
}

/// The fingerprinting query at `now` (milliseconds).
pub fn fingerprint_query(now: i64) -> (r: FingerprintQuery)
    ensures
        r.seen_after == window_start(now, ONLINE_WINDOW_SECS),
        r.fingerprinted_before == window_start(now, FINGERPRINT_COOLDOWN_SECS),
{
    FingerprintQuery {
        seen_after: window_start_ms(now, ONLINE_WINDOW_SECS),
        fingerprinted_before: window_start_ms(now, FINGERPRINT_COOLDOWN_SECS),
    }
}

/// Whether a stored record, last seen at `last_seen` and last fingerprinted
/// at `fingerprinted` (if ever), matches the query.
pub fn is_fingerprint_candidate(q: &FingerprintQuery, last_seen: i64, fingerprinted: Option<i64>) -> (r: bool)
    ensures
        r == fingerprint_eligible(*q, last_seen, fingerprinted),
{
    last_seen > q.seen_after && match fingerprinted {
        Some(t) => t < q.fingerprinted_before,
        None => true,
    }
}

/// Collects fingerprinting targets from query results, with counts of the
/// records skipped for a missing or malformed address or port.
pub struct FingerprintCollector {
    pub results: Vec<(ScanTarget, i32)>,
    pub seen: u64,
    pub ip_missing: u64,
    pub port_missing: u64,
}

impl FingerprintCollector {
    /// No more records were skipped than were seen.
    pub open spec fn wf(&self) -> bool {
        self.ip_missing <= self.seen && self.port_missing <= self.seen
    }

    pub fn new() -> (r: FingerprintCollector)
        ensures
            r.wf(),
            r.results@.len() == 0,
            r.seen == 0,
            r.ip_missing == 0,
            r.port_missing == 0,
    {
        FingerprintCollector { results: Vec::new(), seen: 0, ip_missing: 0, port_missing: 0 }
    }

    /// Takes one record with address `ip`, port `port` and protocol
    /// `protocol` as read from the store (`None` where missing or
    /// malformed). Returns whether it became a target.
    pub fn step(&mut self, ip: Option<u32>, port: Option<u32>, protocol: Option<i32>) -> (r: bool)
        requires
            old(self).wf(),
            old(self).seen < u64::MAX,
        ensures
            final(self).wf(),
            final(self).seen == old(self).seen + 1,
            final(self).ip_missing == old(self).ip_missing + (if ip is None {
                1int
            } else {
                0
            }),
            final(self).port_missing == old(self).port_missing + (if port is None || port->Some_0
                > u16::MAX {
                1int
            } else {
                0
            }),
            r == (ip is Some && port is Some && port->Some_0 <= u16::MAX),
            r ==> final(self).results@ == old(self).results@.push(
                (
                    ScanTarget { ip: ip->Some_0, port: port->Some_0 as u16 },
                    match protocol {
                        Some(v) => v,
                        None => DEFAULT_PROTOCOL,
                    },
                ),
            ),
            !r ==> final(self).results@ == old(self).results@,
    {
        self.seen = self.seen + 1;
        let port_ok = match port {
            Some(p) => p <= u16::MAX as u32,
            None => false,
        };
        if ip.is_none() {
            self.ip_missing = self.ip_missing + 1;
        }
        if !port_ok {
            self.port_missing = self.port_missing + 1;
        }
        match (ip, port) {
            (Some(a), Some(p)) => if port_ok {
                let version = match protocol {
                    Some(v) => v,
                    None => DEFAULT_PROTOCOL,
                };
                self.results.push((ScanTarget { ip: a, port: p as u16 }, version));
                true
            } else {
                false
            },
            _ => false,
        }
    }
}

} // verus!
