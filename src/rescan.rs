use crate::detector::DEFAULT_PORT;
use std::collections::HashSet;
use vstd::prelude::*;

verus! {

broadcast use vstd::std_specs::hash::group_hash_axioms;

/// Order in which rescan candidates are returned.
#[derive(Clone, Copy, Debug, PartialEq, Eq, Structural)]
pub enum Sort {
    /// A uniform random sample of the eligible records.
    Random,
    /// Ascending by last-seen time: the most overdue first.
    Oldest,
}

/// An address and port to probe.
#[derive(Clone, Copy, Debug, PartialEq, Eq, Structural)]
pub struct ScanTarget {
    pub ip: u32,
    pub port: u16,
}

/// A constraint on one field of the stored records.
pub enum Condition<V> {
    /// Strictly after `after` and strictly before `before` (milliseconds).
    Between { after: i64, before: i64 },
    /// Strictly after the given time (milliseconds).
    After(i64),
    /// A constraint supplied by the caller, passed on as it is.
    Extra(V),
}

/// Sample size of a `Random` query without a limit.
pub const UNLIMITED_SAMPLE: usize = 10000000;

/// A rescan query: field constraints (a later one on the same field
/// replaces an earlier one), the order, and how many records at most.
pub struct RescanQuery<V> {
    pub filter: Vec<(String, Condition<V>)>,
    pub sort: Sort,
    pub limit: Option<usize>,
}

/// The instant `secs` seconds before `now` (milliseconds), held at the
/// earliest representable instant.
pub open spec fn window_start(now: i64, secs: u64) -> i64 {
    if now - secs * 1000 < i64::MIN {
        i64::MIN
    } else {
        (now - secs * 1000) as i64
    }
}

/// Last seen within `max_secs` of `now`, but not within `min_secs`.
pub open spec fn seen_window<V>(now: i64, max_secs: u64, min_secs: u64) -> Condition<V> {
    Condition::Between { after: window_start(now, max_secs), before: window_start(now, min_secs) }
}

/// The constraint in force on each field.
pub open spec fn filter_map<V>(f: Seq<(String, Condition<V>)>) -> Map<Seq<char>, Condition<V>>
    decreases f.len(),
{
    if f.len() == 0 {
        Map::empty()
    } else {
        filter_map(f.drop_last()).insert(f.last().0@, f.last().1)
    }
}

/// The instant `secs` seconds before `now`, in milliseconds.
pub fn window_start_ms(now: i64, secs: u64) -> (r: i64)
    ensures
        r == window_start(now, secs),
{
    let v: i128 = now as i128 - (secs as i128) * 1000;
    if v < i64::MIN as i128 {
        i64::MIN
    } else {
        v as i64
    }
}

/// Builds the rescan query at `now` (milliseconds): records last seen within
/// `last_ping_ago_max_secs` but not within `rescan_every_secs`, the caller's
/// extra constraints, and when asked, players seen within
/// `players_online_ago_max_secs`. Without a sort, the oldest come first.
pub fn rescan_query<V>(
    now: i64,
    extra_filter: Vec<(String, V)>,
    rescan_every_secs: u64,
    players_online_ago_max_secs: Option<u64>,
    last_ping_ago_max_secs: u64,
    limit: Option<usize>,
    sort: Option<Sort>,
) -> (r: RescanQuery<V>)
    ensures
        r.sort == match sort {
            Some(s) => s,
            None => Sort::Oldest,
        },
        r.sort == Sort::Random ==> r.limit == Some(
            match limit {
                Some(l) => l,
                None => UNLIMITED_SAMPLE,
            },
        ),
        r.sort == Sort::Oldest ==> r.limit == limit,
        r.filter@.len() == 1 + extra_filter@.len() + (if players_online_ago_max_secs is Some {
            1int
        } else {
            0
        }),
        forall|i: int|
            0 <= i < extra_filter@.len() ==> r.filter@[i].0 == (#[trigger] extra_filter@[i]).0
                && r.filter@[i].1 == Condition::Extra(extra_filter@[i].1),
        r.filter@[extra_filter@.len() as int].0@ == "lastSeen"@,
        r.filter@[extra_filter@.len() as int].1 == seen_window::<V>(
            now,
            last_ping_ago_max_secs,
            rescan_every_secs,
        ),
        players_online_ago_max_secs matches Some(p) ==> r.filter@.last().0@ == "lastActive"@
            && r.filter@.last().1 == Condition::<V>::After(window_start(now, p)),
        filter_map(r.filter@).contains_key("lastSeen"@),
        filter_map(r.filter@)["lastSeen"@] == seen_window::<V>(
            now,
            last_ping_ago_max_secs,
            rescan_every_secs,
        ),
        players_online_ago_max_secs matches Some(p) ==> filter_map(r.filter@).contains_key(
            "lastActive"@,
        ) && filter_map(r.filter@)["lastActive"@] == Condition::<V>::After(window_start(now, p)),
{
    let mut filter: Vec<(String, Condition<V>)> = Vec::new();
    let ghost extra = extra_filter@;
    let n: usize = extra_filter.len();
    let mut rest = extra_filter;
    let mut i: usize = 0;
    while rest.len() > 0
        invariant
            i + rest@.len() == extra.len(),
            extra.len() == n,
            rest@ == extra.subrange(i as int, extra.len() as int),
            filter@.len() == i,
            forall|j: int|
                0 <= j < i ==> filter@[j].0 == (#[trigger] extra[j]).0 && filter@[j].1
                    == Condition::Extra(extra[j].1),
        decreases rest@.len(),
    {
        let ghost old_rest = rest@;
        let (k, v) = rest.remove(0);
        proof {
            assert(extra[i as int] == old_rest[0]);
            assert(rest@ =~= extra.subrange(i + 1, extra.len() as int));
        }
        filter.push((k, Condition::Extra(v)));
        i = i + 1;
    }
    filter.push(
        (
            String::from_str("lastSeen"),
            Condition::Between {
                after: window_start_ms(now, last_ping_ago_max_secs),
                before: window_start_ms(now, rescan_every_secs),
            },
        ),
    );
    proof {
        assert(filter@.last() == filter@[n as int]);
        assert(filter_map(filter@) == filter_map(filter@.drop_last()).insert(
            filter@.last().0@,
            filter@.last().1,
        ));
    }
    if let Some(p) = players_online_ago_max_secs {
        let ghost before = filter@;
        filter.push((String::from_str("lastActive"), Condition::After(window_start_ms(now, p))));
        proof {
            reveal_strlit("lastSeen");
            reveal_strlit("lastActive");
            assert(filter@.drop_last() =~= before);
            assert(filter_map(filter@) == filter_map(before).insert(
                filter@.last().0@,
                filter@.last().1,
            ));
            assert("lastActive"@[4] != "lastSeen"@[4]);
            assert("lastActive"@ != "lastSeen"@);
        }
    }
    let sort = match sort {
        Some(s) => s,
        None => Sort::Oldest,
    };
    let limit = match sort {
        Sort::Random => Some(
            match limit {
                Some(l) => l,
                None => UNLIMITED_SAMPLE,
            },
        ),
        Sort::Oldest => limit,
    };
    RescanQuery { filter, sort, limit }
}

/// A stored time `t` meets a time constraint.
pub open spec fn admits<V>(c: Condition<V>, t: i64) -> bool {
    match c {
        Condition::Between { after, before } => after < t && t < before,
        Condition::After(after) => after < t,
        Condition::Extra(_) => true,
    }
}

/// The last-seen constraint of a rescan query excludes every record last seen
/// before the staleness bound, and every record seen too recently to be due.
pub proof fn lemma_rescan_window<V>(now: i64, last_ping_ago_max_secs: u64, rescan_every_secs: u64, t: i64)
    ensures
        admits(seen_window::<V>(now, last_ping_ago_max_secs, rescan_every_secs), t) <==> (window_start(
            now,
            last_ping_ago_max_secs,
        ) < t && t < window_start(now, rescan_every_secs)),
{
}

/// What to do with one record returned by a rescan query.
#[derive(Clone, Copy, Debug, PartialEq, Eq, Structural)]
pub enum RescanStep {
    /// Its address or port is missing or malformed.
    Skip,
    /// A blocklisted address on a non-standard port, already cleaned up.
    Drop,
    /// A blocklisted address on a non-standard port: delete the address's
    /// stored records on non-standard ports.
    Purge(u32),
    /// Added to the targets.
    Keep,
}

/// Collects rescan targets from query results, dropping blocklisted
/// addresses and cleaning each of them up once.
pub struct RescanCollector {
    pub bad_ips: HashSet<u32>,
    pub purged: HashSet<u32>,
    pub ranges: Vec<ScanTarget>,
}

/// The outcome of one record with address `ip` and port `port` (as stored),
/// given the blocklist and the addresses already cleaned up.
pub open spec fn rescan_step(bad: Set<u32>, purged: Set<u32>, ip: Option<u32>, port: Option<u32>) -> RescanStep {
    match (ip, port) {
        (Some(a), Some(p)) => if p > u16::MAX {
            RescanStep::Skip
        } else if bad.contains(a) && p != DEFAULT_PORT {
            if purged.contains(a) {
                RescanStep::Drop
            } else {
                RescanStep::Purge(a)
            }
        } else {
            RescanStep::Keep
        },
        _ => RescanStep::Skip,
    }
}

impl RescanCollector {
    /// A collector over a copy of the blocklist, with no targets yet.
    pub fn new(bad_ips: HashSet<u32>) -> (r: RescanCollector)
        ensures
            r.bad_ips@ == bad_ips@,
            r.purged@ == Set::<u32>::empty(),
            r.ranges@ == Seq::<ScanTarget>::empty(),
    {
        RescanCollector { bad_ips, purged: HashSet::new(), ranges: Vec::new() }
    }

    /// Takes one record with address `ip` and port `port` as read from the
    /// store (`None` where missing or malformed).
    pub fn step(&mut self, ip: Option<u32>, port: Option<u32>) -> (r: RescanStep)
        ensures
            r == rescan_step(old(self).bad_ips@, old(self).purged@, ip, port),
            final(self).bad_ips@ == old(self).bad_ips@,
            final(self).purged@ == (match r {
                RescanStep::Purge(a) => old(self).purged@.insert(a),
                _ => old(self).purged@,
            }),
            final(self).ranges@ == (match r {
                RescanStep::Keep => old(self).ranges@.push(
                    (ScanTarget { ip: ip->Some_0, port: port->Some_0 as u16 }),
                ),
                _ => old(self).ranges@,
            }),
    {
        match (ip, port) {
            (Some(a), Some(p)) => {
                if p > u16::MAX as u32 {
                    RescanStep::Skip
                } else if self.bad_ips.contains(&a) && p != DEFAULT_PORT as u32 {
                    if self.purged.contains(&a) {
                        RescanStep::Drop
                    } else {
                        self.purged.insert(a);
                        RescanStep::Purge(a)
                    }
                } else {
                    self.ranges.push(ScanTarget { ip: a, port: p as u16 });
                    RescanStep::Keep
                }
            },
            _ => RescanStep::Skip,
        }
    }
}

} // verus!
