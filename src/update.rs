use crate::detector::{
    detect_step, lemma_changed_fingerprint_never_promotes, lemma_promotion_on_hundredth_port, run_probes, SharedData, UpdateRejected,
    PROMOTION_THRESHOLD,
};
use crate::json::Json;
use crate::normalize::{
    accepted, clean_response_data, description_text, entry_id, entry_plausible, ids_of, is_nil_id,
    is_v4_id, lemma_evidence_without_nil, nested_i32, nested_str, record_of, sample_entries,
    sample_fabricated, NormalizedRecord, OnlineMode, SeenPlayer, PRIVACY_MOTD,
};
use crate::text::has_uuid_run;
use vstd::prelude::*;
use vstd::string::*;

verus! {

/// A value assigned to one field of a stored server record.
#[derive(PartialEq, Eq)]
pub enum FieldValue {
    Null,
    Bool(bool),
    Int(i32),
    Str(String),
    /// Milliseconds since the epoch.
    Time(i64),
    /// A player seen in a sample: display name and when.
    Player { name: String, seen_at: i64 },
    /// An IPv4 address, most significant octet first.
    Ip(u32),
    Port(u16),
}

/// A batched write request: update the record stored for `ip`:`port` with
/// `update` (field assignments; a later one of the same field wins),
/// creating it when `upsert` is set and there is none.
pub struct BulkUpdate {
    pub ip: u32,
    pub port: u16,
    pub update: Vec<(String, FieldValue)>,
    pub upsert: bool,
}

/// The field assignments as (name, value) pairs.
pub open spec fn field_views(f: Seq<(String, FieldValue)>) -> Seq<(Seq<char>, FieldValue)> {
    f.map_values(|e: (String, FieldValue)| (e.0@, e.1))
}

pub open spec fn player_field(p: SeenPlayer, t: i64) -> (Seq<char>, FieldValue) {
    ("players."@ + p.id@, FieldValue::Player { name: p.name, seen_at: t })
}

/// The player fields: one per sampled player, none for a fabricated sample.
pub open spec fn player_fields(rec: NormalizedRecord) -> Seq<(Seq<char>, FieldValue)> {
    match rec.players {
        Some(v) => v@.map_values(|p: SeenPlayer| player_field(p, rec.seen_at)),
        None => Seq::empty(),
    }
}

/// The online-mode field: indeterminate when mixed, absent when unknown or
/// when the sample was fabricated.
pub open spec fn mode_fields(rec: NormalizedRecord) -> Seq<(Seq<char>, FieldValue)> {
    if rec.players is None {
        Seq::empty()
    } else {
        match rec.online_mode {
            OnlineMode::Mixed => seq![("isCracked"@, FieldValue::Null)],
            OnlineMode::Online => seq![("isCracked"@, FieldValue::Bool(true))],
            OnlineMode::Offline => seq![("isCracked"@, FieldValue::Bool(false))],
            OnlineMode::Unknown => Seq::empty(),
        }
    }
}

/// The activity stamp: last active with players, last empty without, none
/// for a fabricated sample.
pub open spec fn activity_fields(rec: NormalizedRecord) -> Seq<(Seq<char>, FieldValue)> {
    match rec.players {
        Some(v) => if v@.len() > 0 {
            seq![("lastActive"@, FieldValue::Time(rec.seen_at))]
        } else {
            seq![("lastEmpty"@, FieldValue::Time(rec.seen_at))]
        },
        None => Seq::empty(),
    }
}

/// Every field assignment that a normalized record turns into, in order.
pub open spec fn record_fields(rec: NormalizedRecord) -> Seq<(Seq<char>, FieldValue)> {
    seq![
        ("updated_at"@, FieldValue::Time(rec.seen_at)),
        ("online_players"@, FieldValue::Int(rec.online_players)),
        ("max_players"@, FieldValue::Int(rec.max_players)),
        ("version"@, FieldValue::Str(rec.version_name)),
        ("protocol"@, FieldValue::Int(rec.protocol)),
        ("description"@, FieldValue::Str(rec.description)),
    ] + (if rec.is_modded {
        seq![("isModded"@, FieldValue::Bool(true))]
    } else {
        Seq::empty()
    }) + player_fields(rec) + mode_fields(rec) + seq![("lastSeen"@, FieldValue::Time(rec.seen_at))]
        + activity_fields(rec)
}

fn push_field(fields: &mut Vec<(String, FieldValue)>, key: &str, value: FieldValue)
    ensures
        field_views(final(fields)@) == field_views(old(fields)@).push((key@, value)),
{
    fields.push((String::from_str(key), value));
    proof {
        assert(field_views(final(fields)@) =~= field_views(old(fields)@).push((key@, value)));
    }
}

fn copy_string(s: &String) -> (r: String)
    ensures
        r == *s,
{
    s.clone()
}

/// The field assignments of a record, for a partial update of its stored
/// form (fields not assigned are left as they are).
pub fn build_update_fields(rec: &NormalizedRecord) -> (r: Vec<(String, FieldValue)>)
    ensures
        field_views(r@) == record_fields(*rec),
{
    let t = rec.seen_at;
    let mut f: Vec<(String, FieldValue)> = Vec::new();
    push_field(&mut f, "updated_at", FieldValue::Time(t));
    push_field(&mut f, "online_players", FieldValue::Int(rec.online_players));
    push_field(&mut f, "max_players", FieldValue::Int(rec.max_players));
    push_field(&mut f, "version", FieldValue::Str(copy_string(&rec.version_name)));
    push_field(&mut f, "protocol", FieldValue::Int(rec.protocol));
    push_field(&mut f, "description", FieldValue::Str(copy_string(&rec.description)));
    let ghost head = field_views(f@);
    if rec.is_modded {
        push_field(&mut f, "isModded", FieldValue::Bool(true));
    }
    let ghost before_players = field_views(f@);
    match &rec.players {
        Some(v) => {
            let mut i: usize = 0;
            while i < v.len()
                invariant
                    0 <= i <= v@.len(),
                    rec.players == Some(*v),
                    t == rec.seen_at,
                    field_views(f@) == before_players + v@.take(i as int).map_values(
                        |p: SeenPlayer| player_field(p, rec.seen_at),
                    ),
                decreases v@.len() - i,
            {
                let key = String::from_str("players.").concat(v[i].id.as_str());
                let value = FieldValue::Player { name: copy_string(&v[i].name), seen_at: t };
                let ghost prev = f@;
                f.push((key, value));
                proof {
                    assert(v@.take(i + 1).map_values(|p: SeenPlayer| player_field(p, rec.seen_at))
                        =~= v@.take(i as int).map_values(
                        |p: SeenPlayer| player_field(p, rec.seen_at),
                    ).push(player_field(v@[i as int], rec.seen_at)));
                    assert(field_views(f@) =~= field_views(prev).push(
                        player_field(v@[i as int], rec.seen_at),
                    ));
                }
                i = i + 1;
            }
            proof {
                assert(v@.take(v@.len() as int) =~= v@);
            }
            match rec.online_mode {
                OnlineMode::Mixed => push_field(&mut f, "isCracked", FieldValue::Null),
                OnlineMode::Online => push_field(&mut f, "isCracked", FieldValue::Bool(true)),
                OnlineMode::Offline => push_field(&mut f, "isCracked", FieldValue::Bool(false)),
                OnlineMode::Unknown => {},
            }
            push_field(&mut f, "lastSeen", FieldValue::Time(t));
            if v.len() > 0 {
                push_field(&mut f, "lastActive", FieldValue::Time(t));
            } else {
                push_field(&mut f, "lastEmpty", FieldValue::Time(t));
            }
        },
        None => {
            push_field(&mut f, "lastSeen", FieldValue::Time(t));
        },
    }
    proof {
        assert(field_views(f@) =~= record_fields(*rec));
    }
    f
}

/// The content fingerprint of a response: a digest of its description,
/// version name, protocol number and player limit.
pub uninterp spec fn fingerprint_of(description: Seq<char>, version: Seq<char>, protocol: i32, max_players: i32) -> u64;

/// The fingerprint of a normalized record.
pub open spec fn record_fingerprint(rec: NormalizedRecord) -> u64 {
    fingerprint_of(rec.description@, rec.version_name@, rec.protocol, rec.max_players)
}

/// Relies on std's `DefaultHasher::new`, which is unkeyed (SipHash with
/// fixed keys), hashing the four identity-bearing fields. The integers are
/// hashed as little-endian bytes, so the digest depends on the four values
/// alone.
#[verifier::external_body]
fn content_fingerprint(description: &str, version: &str, protocol: i32, max_players: i32) -> (r: u64)
    ensures
        r == fingerprint_of(description@, version@, protocol, max_players),
{
    let mut hasher = std::collections::hash_map::DefaultHasher::new();
    let fields = (description, version, protocol.to_le_bytes(), max_players.to_le_bytes());
    std::hash::Hash::hash(&fields, &mut hasher);
    std::hash::Hasher::finish(&hasher)
}

/// Checks an accepted record of `ip`:`port` against the blocklist and the
/// repeat cache, and builds its write request: match on address and port,
/// assign the record's fields, create the record if it is new.
pub fn create_bulk_update(shared: &mut SharedData, ip: u32, port: u16, rec: &NormalizedRecord) -> (r:
    Result<BulkUpdate, UpdateRejected>)
    ensures
        detect_step(old(shared)@, ip, port, record_fingerprint(*rec)) == (final(shared)@, match r {
            Ok(_) => None,
            Err(e) => Some(e),
        }),
        r matches Ok(req) ==> req.ip == ip && req.port == port && req.upsert && field_views(
            req.update@,
        ) == record_fields(*rec),
{
    if shared.is_rejected(ip, port) {
        return Err(UpdateRejected::BlockedAddress);
    }
    let fp = content_fingerprint(
        rec.description.as_str(),
        rec.version_name.as_str(),
        rec.protocol,
        rec.max_players,
    );
    let promote = shared.register_probe(ip, port, fp);
    if promote {
        return Err(UpdateRejected::NewlyBlocked);
    }
    Ok(BulkUpdate { ip, port, update: build_update_fields(rec), upsert: true })
}

/// What becomes of one probe response.
pub enum ProbeOutcome {
    /// Not a usable status response.
    Ignored,
    /// A usable response that is not written; see the reason.
    Rejected(UpdateRejected),
    /// Hand this request to the write batcher.
    Write(BulkUpdate),
}

/// The detector's verdict that an outcome reports.
pub open spec fn outcome_verdict(r: ProbeOutcome) -> Option<UpdateRejected> {
    match r {
        ProbeOutcome::Rejected(e) => Some(e),
        _ => None,
    }
}

/// Processes one decoded probe response of `ip`:`port` received at `now`:
/// normalize it, then check and build its write request.
pub fn process(shared: &mut SharedData, ip: u32, port: u16, data: &Json, now: i64) -> (r:
    ProbeOutcome)
    ensures
        !accepted(*data) ==> r is Ignored && final(shared)@ == old(shared)@,
        accepted(*data) ==> exists|rec: NormalizedRecord|
            #[trigger] record_of(*data, now, rec) && detect_step(
                old(shared)@,
                ip,
                port,
                record_fingerprint(rec),
            ) == (final(shared)@, outcome_verdict(r)) && match r {
                ProbeOutcome::Write(req) => req.ip == ip && req.port == port && req.upsert
                    && field_views(req.update@) == record_fields(rec),
                ProbeOutcome::Rejected(_) => true,
                ProbeOutcome::Ignored => false,
            },
{
    match clean_response_data(data, now) {
        None => ProbeOutcome::Ignored,
        Some(rec) => match create_bulk_update(shared, ip, port, &rec) {
            Ok(req) => ProbeOutcome::Write(req),
            Err(e) => ProbeOutcome::Rejected(e),
        },
    }
}

/// A stored record, field name to value.
pub type StoredRecord = Map<Seq<char>, FieldValue>;

/// `base` after the assignments of `fields`, in order.
pub open spec fn apply_fields(base: StoredRecord, fields: Seq<(Seq<char>, FieldValue)>) -> StoredRecord
    decreases fields.len(),
{
    if fields.len() == 0 {
        base
    } else {
        apply_fields(base, fields.drop_last()).insert(fields.last().0, fields.last().1)
    }
}

/// The fields that an upsert creates from the match on address and port.
pub open spec fn identity_fields(ip: u32, port: u16) -> StoredRecord {
    map!["ip"@ => FieldValue::Ip(ip), "port"@ => FieldValue::Port(port)]
}

/// The stored record after `req` is applied: a partial merge into the
/// existing record, or into a new one made from the match when there is none
/// and `upsert` is set.
pub open spec fn apply_request(req: BulkUpdate, existing: Option<StoredRecord>) -> Option<StoredRecord> {
    match existing {
        Some(m) => Some(apply_fields(m, field_views(req.update@))),
        None => if req.upsert {
            Some(apply_fields(identity_fields(req.ip, req.port), field_views(req.update@)))
        } else {
            None
        },
    }
}

proof fn lemma_apply_fields_union(base: StoredRecord, fields: Seq<(Seq<char>, FieldValue)>)
    ensures
        apply_fields(base, fields) == base.union_prefer_right(apply_fields(Map::empty(), fields)),
    decreases fields.len(),
{
    if fields.len() > 0 {
        lemma_apply_fields_union(base, fields.drop_last());
        assert(apply_fields(base, fields) =~= base.union_prefer_right(
            apply_fields(Map::empty(), fields),
        ));
    }
}

proof fn lemma_apply_fields_keys(base: StoredRecord, fields: Seq<(Seq<char>, FieldValue)>, k: Seq<char>)
    requires
        forall|i: int| 0 <= i < fields.len() ==> (#[trigger] fields[i]).0 != k,
    ensures
        apply_fields(base, fields).contains_key(k) == base.contains_key(k),
        base.contains_key(k) ==> apply_fields(base, fields)[k] == base[k],
    decreases fields.len(),
{
    if fields.len() > 0 {
        assert(fields.last() == fields[fields.len() - 1]);
        lemma_apply_fields_keys(base, fields.drop_last(), k);
    }
}

proof fn lemma_record_fields_keys(rec: NormalizedRecord)
    ensures
        forall|i: int|
            0 <= i < record_fields(rec).len() ==> (#[trigger] record_fields(rec)[i]).0 != "ip"@
                && record_fields(rec)[i].0 != "port"@,
{
    reveal_strlit("ip");
    reveal_strlit("port");
    reveal_strlit("players.");
    reveal_strlit("updated_at");
    reveal_strlit("online_players");
    reveal_strlit("max_players");
    reveal_strlit("version");
    reveal_strlit("protocol");
    reveal_strlit("description");
    reveal_strlit("isModded");
    reveal_strlit("isCracked");
    reveal_strlit("lastSeen");
    reveal_strlit("lastActive");
    reveal_strlit("lastEmpty");
    let f = record_fields(rec);
    assert forall|i: int| 0 <= i < f.len() implies (#[trigger] f[i]).0 != "ip"@ && f[i].0 != "port"@ by {
        let k = f[i].0;
        if k.len() == "ip"@.len() {
            assert(k[0] != "ip"@[0] || k[1] != "ip"@[1]);
        }
        if k.len() == "port"@.len() {
            assert(k[0] != "port"@[0] || k[1] != "port"@[1] || k[2] != "port"@[2] || k[3] != "port"@[3]);
        }
    }
}

/// Applying the write request built for a record to a target with no stored
/// record yields exactly the record's fields plus the address and port
/// that the upsert takes from the match.
pub proof fn lemma_upsert_round_trip(rec: NormalizedRecord, req: BulkUpdate)
    requires
        req.upsert,
        field_views(req.update@) == record_fields(rec),
    ensures
        apply_request(req, None) == Some(
            identity_fields(req.ip, req.port).union_prefer_right(
                apply_fields(Map::empty(), record_fields(rec)),
            ),
        ),
        !apply_fields(Map::empty(), record_fields(rec)).contains_key("ip"@),
        !apply_fields(Map::empty(), record_fields(rec)).contains_key("port"@),
{
    lemma_apply_fields_union(identity_fields(req.ip, req.port), record_fields(rec));
    lemma_record_fields_keys(rec);
    lemma_apply_fields_keys(Map::empty(), record_fields(rec), "ip"@);
    lemma_apply_fields_keys(Map::empty(), record_fields(rec), "port"@);
}

/// A sample of recognized identifiers (none all zeros) that shows both
/// schemes classifies the server as mixed, stored as an indeterminate
/// online-mode field and never as a boolean one.
pub proof fn lemma_mixed_sample(data: Json, now: i64, rec: NormalizedRecord)
    requires
        record_of(data, now, rec),
        rec.description@ != PRIVACY_MOTD@,
        forall|i: int|
            0 <= i < sample_entries(data).len() ==> has_uuid_run(entry_id(#[trigger] sample_entries(data)[i]))
                && !is_nil_id(entry_id(sample_entries(data)[i])),
        exists|i: int| 0 <= i < sample_entries(data).len() && is_v4_id(entry_id(#[trigger] sample_entries(data)[i])),
        exists|i: int| 0 <= i < sample_entries(data).len() && !is_v4_id(entry_id(#[trigger] sample_entries(data)[i])),
    ensures
        rec.online_mode == OnlineMode::Mixed,
        rec.players is Some,
        mode_fields(rec) == seq![("isCracked"@, FieldValue::Null)],
{
    let s = sample_entries(data);
    let ids = ids_of(s);
    assert(!sample_fabricated(data)) by {
        assert forall|i: int| 0 <= i < s.len() implies entry_plausible(#[trigger] s[i]) by {
            assert(has_uuid_run(entry_id(s[i])));
        }
    }
    assert forall|i: int| 0 <= i < ids.len() implies !is_nil_id(#[trigger] ids[i]) by {
        assert(ids[i] == entry_id(s[i]));
    }
    lemma_evidence_without_nil(ids);
    let a = choose|i: int| 0 <= i < s.len() && is_v4_id(entry_id(#[trigger] s[i]));
    let b = choose|i: int| 0 <= i < s.len() && !is_v4_id(entry_id(#[trigger] s[i]));
    assert(ids[a] == entry_id(s[a]) && ids[b] == entry_id(s[b]));
    if is_v4_id(ids[0]) {
        assert(is_v4_id(ids[b]) != is_v4_id(ids[0]));
    } else {
        assert(is_v4_id(ids[a]) != is_v4_id(ids[0]));
    }
}

/// A sample with an entry that has neither a recognized identifier nor the
/// anonymous name suppresses every player-derived field, and keeps the
/// description, version and counts.
pub proof fn lemma_fabricated_sample(data: Json, now: i64, rec: NormalizedRecord)
    requires
        record_of(data, now, rec),
        rec.description@ != PRIVACY_MOTD@,
        exists|i: int|
            0 <= i < sample_entries(data).len() && !entry_plausible(#[trigger] sample_entries(data)[i]),
    ensures
        rec.players is None,
        rec.online_mode == OnlineMode::Unknown,
        player_fields(rec).len() == 0,
        mode_fields(rec).len() == 0,
        activity_fields(rec).len() == 0,
        description_text(data) == Some(rec.description@),
        rec.version_name@ == nested_str(data, "version"@, "name"@),
        rec.protocol == nested_i32(data, "version"@, "protocol"@),
        rec.max_players == nested_i32(data, "players"@, "max"@),
        rec.online_players == nested_i32(data, "players"@, "online"@),
{
}

/// Two records that agree on description, version name, protocol and
/// player limit get the same detector outcome from the same state.
pub proof fn lemma_same_identity_same_outcome(
    m: crate::detector::SharedModel,
    ip: u32,
    port: u16,
    a: NormalizedRecord,
    b: NormalizedRecord,
)
    requires
        a.description@ == b.description@,
        a.version_name@ == b.version_name@,
        a.protocol == b.protocol,
        a.max_players == b.max_players,
    ensures
        detect_step(m, ip, port, record_fingerprint(a)) == detect_step(m, ip, port, record_fingerprint(b)),
{
}

/// Write requests for one hundred records of a fresh address on distinct
/// ports, all agreeing on description, version name, protocol and player
/// limit, promote the address exactly once: on the hundredth distinct port.
pub proof fn lemma_records_promote_on_hundredth_port(
    m: crate::detector::SharedModel,
    ip: u32,
    ports: Seq<u16>,
    recs: Seq<NormalizedRecord>,
)
    requires
        !m.0.contains(ip),
        !m.1.contains_key(ip),
        ports.no_duplicates(),
        ports.len() <= PROMOTION_THRESHOLD,
        recs.len() == ports.len(),
        forall|i: int|
            0 <= i < recs.len() ==> (#[trigger] recs[i]).description@ == recs[0].description@
                && recs[i].version_name@ == recs[0].version_name@ && recs[i].protocol
                == recs[0].protocol && recs[i].max_players == recs[0].max_players,
    ensures
        ({
            let fps = recs.map_values(|r: NormalizedRecord| record_fingerprint(r));
            let (m2, vs) = run_probes(m, ip, ports, fps);
            forall|i: int|
                0 <= i < ports.len() ==> (#[trigger] vs[i] == Some(UpdateRejected::NewlyBlocked)
                    <==> i == PROMOTION_THRESHOLD - 1)
        }),
{
    if ports.len() > 0 {
        let fp = record_fingerprint(recs[0]);
        let fps = recs.map_values(|r: NormalizedRecord| record_fingerprint(r));
        assert(fps =~= Seq::new(ports.len(), |i: int| fp)) by {
            assert forall|i: int| 0 <= i < fps.len() implies fps[i] == fp by {
                assert(recs[i].description@ == recs[0].description@);
            }
        }
        lemma_promotion_on_hundredth_port(m, ip, ports, fp);
    }
}

/// Write requests for records of a fresh address on distinct ports, the
/// first forty-nine agreeing on description, version name, protocol and
/// player limit and the fiftieth with another fingerprint: none promotes
/// the address, and counting for it ends up disabled.
pub proof fn lemma_records_changed_fingerprint(
    m: crate::detector::SharedModel,
    ip: u32,
    ports: Seq<u16>,
    recs: Seq<NormalizedRecord>,
)
    requires
        !m.0.contains(ip),
        !m.1.contains_key(ip),
        ports.no_duplicates(),
        ports.len() >= 50,
        recs.len() == ports.len(),
        forall|i: int|
            0 <= i < 49 ==> (#[trigger] recs[i]).description@ == recs[0].description@
                && recs[i].version_name@ == recs[0].version_name@ && recs[i].protocol
                == recs[0].protocol && recs[i].max_players == recs[0].max_players,
        record_fingerprint(recs[49]) != record_fingerprint(recs[0]),
    ensures
        ({
            let fps = recs.map_values(|r: NormalizedRecord| record_fingerprint(r));
            let (m2, vs) = run_probes(m, ip, ports, fps);
            &&& m2.1.contains_key(ip)
            &&& m2.1[ip].0 is None
            &&& forall|i: int| 0 <= i < vs.len() ==> #[trigger] vs[i] != Some(UpdateRejected::NewlyBlocked)
        }),
{
    let fp = record_fingerprint(recs[0]);
    let fps = recs.map_values(|r: NormalizedRecord| record_fingerprint(r));
    assert forall|i: int| 0 <= i < 49 implies fps[i] == fp by {
        assert(recs[i].description@ == recs[0].description@);
    }
    lemma_changed_fingerprint_never_promotes(m, ip, ports, fps, fp);
}

} // verus!
