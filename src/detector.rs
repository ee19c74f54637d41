use std::collections::{HashMap, HashSet};
use vstd::prelude::*;

verus! {

broadcast use vstd::std_specs::hash::group_hash_axioms;

/// The protocol's standard port; blocklisting never rejects it.
pub const DEFAULT_PORT: u16 = 25565;

/// Distinct ports with one fingerprint after which an address is blocklisted.
pub const PROMOTION_THRESHOLD: u32 = 100;

/// The fingerprint first seen on an address, and how many distinct ports
/// showed it; `count` is `None` once two fingerprints were seen.
#[derive(Clone, Copy, Debug, PartialEq, Eq, Structural)]
pub struct CachedIpHash {
    pub count: Option<u32>,
    pub hash: u64,
}

/// Repeat-cache entry of one address: its fingerprint record and the ports
/// already counted.
pub struct RepeatEntry {
    pub cached: CachedIpHash,
    pub ports: HashSet<u16>,
}

/// State shared by all workers: the blocklist and the per-address repeat
/// cache. Callers hold it under one lock; no method suspends.
pub struct SharedData {
    pub bad_ips: HashSet<u32>,
    pub ips_with_same_hash: HashMap<u32, RepeatEntry>,
}

/// A repeat-cache entry as a value: count, fingerprint, counted ports.
pub type EntryModel = (Option<u32>, u64, Set<u16>);

/// The shared state as a value: blocklist and repeat cache.
pub type SharedModel = (Set<u32>, Map<u32, EntryModel>);

pub open spec fn entry_model(e: RepeatEntry) -> EntryModel {
    (e.cached.count, e.cached.hash, e.ports@)
}

impl View for SharedData {
    type V = SharedModel;

    open spec fn view(&self) -> SharedModel {
        (self.bad_ips@, self.ips_with_same_hash@.map_values(|e: RepeatEntry| entry_model(e)))
    }
}

/// A count after one more matching port (held at `u32::MAX`, which the
/// 65536 ports of an address never reach).
pub open spec fn bumped(c: u32) -> u32 {
    if c < u32::MAX {
        (c + 1) as u32
    } else {
        c
    }
}

/// The probe is rejected outright: the address is blocklisted and the port is
/// not the standard one.
pub open spec fn rejected_by_blocklist(m: SharedModel, ip: u32, port: u16) -> bool {
    m.0.contains(ip) && port != DEFAULT_PORT
}

/// The repeat cache after a probe of `ip`:`port` with fingerprint `fp`, and
/// whether the address is promoted to the blocklist by it.
pub open spec fn probe_step(m: SharedModel, ip: u32, port: u16, fp: u64) -> (SharedModel, bool) {
    if !m.1.contains_key(ip) {
        ((m.0, m.1.insert(ip, (Some(1u32), fp, set![port]))), false)
    } else {
        let e = m.1[ip];
        if e.2.contains(port) {
            (m, false)
        } else {
            match e.0 {
                None => (m, false),
                Some(c) => if fp == e.1 {
                    let promote = bumped(c) == PROMOTION_THRESHOLD;
                    let bad = if promote {
                        m.0.insert(ip)
                    } else {
                        m.0
                    };
                    ((bad, m.1.insert(ip, (Some(bumped(c)), e.1, e.2.insert(port)))), promote)
                } else {
                    ((m.0, m.1.insert(ip, (None, e.1, e.2))), false)
                },
            }
        }
    }
}

/// Why no write request is produced for an accepted record.
#[derive(Clone, Copy, Debug, PartialEq, Eq, Structural)]
pub enum UpdateRejected {
    /// The address was already blocklisted and the port is not the standard one.
    BlockedAddress,
    /// This probe put the address on the blocklist; the caller persists the
    /// block and removes the address's stored records on other ports.
    NewlyBlocked,
}

/// One probe through the detector: rejected when the address is
/// blocklisted on a non-standard port, else counted; `None` when accepted.
pub open spec fn detect_step(m: SharedModel, ip: u32, port: u16, fp: u64) -> (SharedModel, Option<UpdateRejected>) {
    if rejected_by_blocklist(m, ip, port) {
        (m, Some(UpdateRejected::BlockedAddress))
    } else {
        let (m2, promote) = probe_step(m, ip, port, fp);
        (m2, if promote {
            Some(UpdateRejected::NewlyBlocked)
        } else {
            None
        })
    }
}

impl SharedData {
    /// Empty blocklist and cache, as at startup.
    pub fn new() -> (r: SharedData)
        ensures
            r@.0 == Set::<u32>::empty(),
            r@.1 == Map::<u32, EntryModel>::empty(),
    {
        let r = SharedData { bad_ips: HashSet::new(), ips_with_same_hash: HashMap::new() };
        proof {
            assert(r@.1 =~= Map::<u32, EntryModel>::empty());
        }
        r
    }

    /// Whether a probe of `ip`:`port` is rejected because the address is
    /// blocklisted (the standard port never is).
    pub fn is_rejected(&self, ip: u32, port: u16) -> (r: bool)
        ensures
            r == rejected_by_blocklist(self@, ip, port),
    {
        self.bad_ips.contains(&ip) && port != DEFAULT_PORT
    }

    /// Adds `ip` to the blocklist.
    pub fn add_bad_ip(&mut self, ip: u32)
        ensures
            final(self)@.0 == old(self)@.0.insert(ip),
            final(self)@.1 == old(self)@.1,
    {
        self.bad_ips.insert(ip);
    }

    /// Counts a probe of `ip`:`port` whose response has fingerprint `fp`.
    /// Returns true when this probe makes the address the one hundredth
    /// distinct port with one fingerprint; the address is then blocklisted.
    pub fn register_probe(&mut self, ip: u32, port: u16, fp: u64) -> (promote: bool)
        ensures
            (final(self)@, promote) == probe_step(old(self)@, ip, port, fp),
    {
        let ghost m = self@;
        match self.ips_with_same_hash.remove(&ip) {
            None => {
                let mut ports: HashSet<u16> = HashSet::new();
                ports.insert(port);
                self.ips_with_same_hash.insert(
                    ip,
                    RepeatEntry { cached: CachedIpHash { count: Some(1), hash: fp }, ports },
                );
                proof {
                    assert(ports@ =~= set![port]);
                    assert(self@.1 =~= m.1.insert(ip, (Some(1u32), fp, set![port])));
                }
                false
            },
            Some(mut e) => {
                let mut promote = false;
                if !e.ports.contains(&port) {
                    match e.cached.count {
                        Some(c) => {
                            if fp == e.cached.hash {
                                let next = if c < u32::MAX {
                                    c + 1
                                } else {
                                    c
                                };
                                e.cached.count = Some(next);
                                e.ports.insert(port);
                                promote = next == PROMOTION_THRESHOLD;
                            } else {
                                e.cached.count = None;
                            }
                        },
                        None => {},
                    }
                }
                self.ips_with_same_hash.insert(ip, e);
                if promote {
                    self.bad_ips.insert(ip);
                }
                proof {
                    assert(self@.1 =~= m.1.insert(ip, entry_model(e)));
                    if m.1[ip].2.contains(port) || m.1[ip].0 is None {
                        assert(m.1.insert(ip, entry_model(e)) =~= m.1);
                    }
                }
                promote
            },
        }
    }
}

/// Probes of one address on `ports` in turn, the `i`th with fingerprint
/// `fps[i]`: the final state and the verdict of each probe.
pub open spec fn run_probes(m: SharedModel, ip: u32, ports: Seq<u16>, fps: Seq<u64>) -> (SharedModel, Seq<Option<UpdateRejected>>)
    decreases ports.len(),
{
    if ports.len() == 0 {
        (m, Seq::empty())
    } else {
        let (m1, vs) = run_probes(m, ip, ports.drop_last(), fps);
        let (m2, v) = detect_step(m1, ip, ports.last(), fps[ports.len() - 1]);
        (m2, vs.push(v))
    }
}

proof fn lemma_run_same_fingerprint(m: SharedModel, ip: u32, ports: Seq<u16>, fps: Seq<u64>, fp: u64)
    requires
        !m.0.contains(ip),
        !m.1.contains_key(ip),
        ports.no_duplicates(),
        1 <= ports.len() <= PROMOTION_THRESHOLD,
        fps.len() >= ports.len(),
        forall|i: int| 0 <= i < ports.len() ==> fps[i] == fp,
    ensures
        ({
            let (m2, vs) = run_probes(m, ip, ports, fps);
            &&& m2.1.contains_key(ip)
            &&& m2.1[ip] == (Some(ports.len() as u32), fp, ports.to_set())
            &&& (m2.0.contains(ip) <==> ports.len() == PROMOTION_THRESHOLD)
            &&& vs.len() == ports.len()
            &&& forall|i: int|
                0 <= i < ports.len() ==> #[trigger] vs[i] == (if i == PROMOTION_THRESHOLD - 1 {
                    Some(UpdateRejected::NewlyBlocked)
                } else {
                    None
                })
        }),
    decreases ports.len(),
{
    let init = ports.drop_last();
    let last = ports.last();
    assert(init.push(last) =~= ports);
    init.lemma_push_to_set_commute(last);
    if ports.len() == 1 {
        assert(init =~= Seq::<u16>::empty());
        assert(ports.to_set() =~= set![last]);
    } else {
        lemma_run_same_fingerprint(m, ip, init, fps, fp);
        assert(!init.contains(last)) by {
            if init.contains(last) {
                let k = choose|k: int| 0 <= k < init.len() && init[k] == last;
                assert(ports[k] == ports[ports.len() - 1]);
            }
        }
        let (m1, vs1) = run_probes(m, ip, init, fps);
        assert(!m1.1[ip].2.contains(last));
        let (m2, vs) = run_probes(m, ip, ports, fps);
        assert forall|i: int| 0 <= i < ports.len() implies #[trigger] vs[i] == (if i
            == PROMOTION_THRESHOLD - 1 {
            Some(UpdateRejected::NewlyBlocked)
        } else {
            None
        }) by {
            if i < init.len() {
                assert(vs[i] == vs1[i]);
            }
        }
    }
}

/// One hundred probes of a fresh address on distinct ports that all show
/// one fingerprint promote the address exactly once: on the hundredth
/// distinct port, and on no probe before it.
pub proof fn lemma_promotion_on_hundredth_port(m: SharedModel, ip: u32, ports: Seq<u16>, fp: u64)
    requires
        !m.0.contains(ip),
        !m.1.contains_key(ip),
        ports.no_duplicates(),
        ports.len() <= PROMOTION_THRESHOLD,
    ensures
        ({
            let (m2, vs) = run_probes(m, ip, ports, Seq::new(ports.len(), |i: int| fp));
            forall|i: int|
                0 <= i < ports.len() ==> (#[trigger] vs[i] == Some(UpdateRejected::NewlyBlocked) <==> i
                    == PROMOTION_THRESHOLD - 1)
        }),
{
    if ports.len() >= 1 {
        lemma_run_same_fingerprint(m, ip, ports, Seq::new(ports.len(), |i: int| fp), fp);
    }
}

/// Once counting is disabled for an address, no probe of it enables it again
/// or promotes it.
pub proof fn lemma_disabled_stays_disabled(m: SharedModel, ip: u32, port: u16, fp: u64)
    requires
        m.1.contains_key(ip),
        m.1[ip].0 is None,
    ensures
        ({
            let (m2, v) = detect_step(m, ip, port, fp);
            &&& m2.1.contains_key(ip)
            &&& m2.1[ip].0 is None
            &&& v != Some(UpdateRejected::NewlyBlocked)
        }),
{
}

/// A probe on a new port of a counted address with a fingerprint other than
/// the one recorded disables counting for the address, without promotion.
pub proof fn lemma_mismatch_disables(m: SharedModel, ip: u32, port: u16, fp: u64)
    requires
        !rejected_by_blocklist(m, ip, port),
        m.1.contains_key(ip),
        m.1[ip].0 is Some,
        !m.1[ip].2.contains(port),
        fp != m.1[ip].1,
    ensures
        ({
            let (m2, v) = detect_step(m, ip, port, fp);
            &&& m2.1.contains_key(ip)
            &&& m2.1[ip].0 is None
            &&& v is None
        }),
{
}

/// Of a run of probes on a counting-disabled address, none promotes it, and
/// counting stays disabled.
pub proof fn lemma_disabled_run(m: SharedModel, ip: u32, ports: Seq<u16>, fps: Seq<u64>)
    requires
        m.1.contains_key(ip),
        m.1[ip].0 is None,
        fps.len() >= ports.len(),
    ensures
        ({
            let (m2, vs) = run_probes(m, ip, ports, fps);
            &&& m2.1.contains_key(ip)
            &&& m2.1[ip].0 is None
            &&& vs.len() == ports.len()
            &&& forall|i: int| 0 <= i < vs.len() ==> #[trigger] vs[i] != Some(UpdateRejected::NewlyBlocked)
        }),
    decreases ports.len(),
{
    if ports.len() > 0 {
        lemma_disabled_run(m, ip, ports.drop_last(), fps);
        let (m1, vs1) = run_probes(m, ip, ports.drop_last(), fps);
        lemma_disabled_stays_disabled(m1, ip, ports.last(), fps[ports.len() - 1]);
        let (m2, vs) = run_probes(m, ip, ports, fps);
        assert forall|i: int| 0 <= i < vs.len() implies #[trigger] vs[i] != Some(UpdateRejected::NewlyBlocked) by {
            if i < vs1.len() {
                assert(vs[i] == vs1[i]);
            }
        }
    }
}

/// Probes of a fresh address on distinct ports, all with one fingerprint
/// except the fiftieth: no probe promotes the address, and counting for it
/// is disabled from the fiftieth probe on.
pub proof fn lemma_changed_fingerprint_never_promotes(
    m: SharedModel,
    ip: u32,
    ports: Seq<u16>,
    fps: Seq<u64>,
    fp: u64,
)
    requires
        !m.0.contains(ip),
        !m.1.contains_key(ip),
        ports.no_duplicates(),
        ports.len() >= 50,
        fps.len() >= ports.len(),
        forall|i: int| 0 <= i < 49 ==> fps[i] == fp,
        fps[49] != fp,
    ensures
        ({
            let (m2, vs) = run_probes(m, ip, ports, fps);
            &&& m2.1.contains_key(ip)
            &&& m2.1[ip].0 is None
            &&& vs.len() == ports.len()
            &&& forall|i: int| 0 <= i < vs.len() ==> #[trigger] vs[i] != Some(UpdateRejected::NewlyBlocked)
        }),
    decreases ports.len(),
{
    let init = ports.drop_last();
    let last = ports.last();
    assert(init.no_duplicates()) by {
        assert forall|i: int, j: int| 0 <= i < init.len() && 0 <= j < init.len() && i != j implies init[i]
            != init[j] by {
            assert(init[i] == ports[i] && init[j] == ports[j]);
        }
    }
    if ports.len() == 50 {
        lemma_run_same_fingerprint(m, ip, init, fps, fp);
        assert(!init.contains(last)) by {
            if init.contains(last) {
                let k = choose|k: int| 0 <= k < init.len() && init[k] == last;
                assert(ports[k] == ports[ports.len() - 1]);
            }
        }
        let (m1, vs1) = run_probes(m, ip, init, fps);
        assert(!m1.1[ip].2.contains(last));
        let (m2, vs) = run_probes(m, ip, ports, fps);
        assert forall|i: int| 0 <= i < vs.len() implies #[trigger] vs[i] != Some(UpdateRejected::NewlyBlocked) by {
            if i < vs1.len() {
                assert(vs[i] == vs1[i]);
            }
        }
    } else {
        lemma_changed_fingerprint_never_promotes(m, ip, init, fps, fp);
        let (m1, vs1) = run_probes(m, ip, init, fps);
        lemma_disabled_stays_disabled(m1, ip, last, fps[ports.len() - 1]);
        let (m2, vs) = run_probes(m, ip, ports, fps);
        assert forall|i: int| 0 <= i < vs.len() implies #[trigger] vs[i] != Some(UpdateRejected::NewlyBlocked) by {
            if i < vs1.len() {
                assert(vs[i] == vs1[i]);
            }
        }
    }
}

/// Probing the same address and port a second time changes nothing and
/// promotes nothing, whatever the fingerprints.
pub proof fn lemma_repeat_probe_not_counted(m: SharedModel, ip: u32, port: u16, fp1: u64, fp2: u64)
    ensures
        ({
            let (m1, v1) = detect_step(m, ip, port, fp1);
            let (m2, v2) = detect_step(m1, ip, port, fp2);
            m2 == m1 && v2 != Some(UpdateRejected::NewlyBlocked)
        }),
{
    let (m1, v1) = detect_step(m, ip, port, fp1);
    if !rejected_by_blocklist(m, ip, port) && !m.1.contains_key(ip) {
        assert(set![port].contains(port));
    }
    if !rejected_by_blocklist(m, ip, port) && m.1.contains_key(ip) && !m.1[ip].2.contains(port) {
        assert(m.1[ip].2.insert(port).contains(port));
    }
}

/// The standard port is never rejected for its address being blocklisted.
pub proof fn lemma_default_port_never_blocked(m: SharedModel, ip: u32, fp: u64)
    ensures
        detect_step(m, ip, DEFAULT_PORT, fp).1 != Some(UpdateRejected::BlockedAddress),
{
}

} // verus!
