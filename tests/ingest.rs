use server_ingest::{
    build_update_fields, clean_response_data, create_bulk_update, fingerprint_query,
    is_fingerprint_candidate, is_placeholder, process, read_sample, rescan_query,
    window_start_ms, Condition, FieldValue, FingerprintCollector, Json, NormalizedRecord,
    OnlineMode, ProbeOutcome, RescanCollector, RescanStep, ScanTarget, SharedData, Sort,
    UpdateRejected, DEFAULT_PORT, PRIVACY_MOTD,
};
use std::collections::HashSet;

const V4_ID: &str = "069a79f4-44e9-4726-a5be-fca90e38aaf5";
const V4_ID_B: &str = "853c80ef3c3749fdaa49938b674adae6";
const V3_ID: &str = "a0b1c2d3-e4f5-3a6b-8c9d-0e1f2a3b4c5d";
const NIL_ID: &str = "00000000-0000-0000-0000-000000000000";

fn s(v: &str) -> Json {
    Json::Str(v.to_string())
}

fn obj(entries: Vec<(&str, Json)>) -> Json {
    Json::Object(entries.into_iter().map(|(k, v)| (k.to_string(), v)).collect())
}

fn player(id: &str, name: &str) -> Json {
    obj(vec![("id", s(id)), ("name", s(name))])
}

fn status(description: Json, sample: Option<Vec<Json>>) -> Json {
    let mut players = vec![("max", Json::Int(20)), ("online", Json::Int(3))];
    if let Some(sample) = sample {
        players.push(("sample", Json::Array(sample)));
    }
    obj(vec![
        ("description", description),
        ("players", obj(players)),
        ("version", obj(vec![("name", s("1.20.4")), ("protocol", Json::Int(765))])),
    ])
}

fn record(data: &Json) -> NormalizedRecord {
    clean_response_data(data, 1_000).expect("accepted")
}

fn field<'a>(fields: &'a [(String, FieldValue)], key: &str) -> Option<&'a FieldValue> {
    fields.iter().rev().find(|(k, _)| k == key).map(|(_, v)| v)
}

#[test]
fn missing_description_is_rejected() {
    let data = obj(vec![("players", obj(vec![("max", Json::Int(20))]))]);
    assert!(clean_response_data(&data, 0).is_none());
    assert!(clean_response_data(&s("hello"), 0).is_none());
    assert!(clean_response_data(&Json::Array(vec![]), 0).is_none());
}

#[test]
fn plain_fields_are_read() {
    let rec = record(&status(s("A Minecraft Server"), None));
    assert_eq!(rec.description, "A Minecraft Server");
    assert_eq!(rec.version_name, "1.20.4");
    assert_eq!(rec.protocol, 765);
    assert_eq!(rec.max_players, 20);
    assert_eq!(rec.online_players, 3);
    assert!(!rec.is_modded);
    assert_eq!(rec.seen_at, 1_000);
    assert_eq!(rec.online_mode, OnlineMode::Unknown);
    assert_eq!(rec.players.as_ref().map(|p| p.len()), Some(0));
}

#[test]
fn rich_text_description_is_flattened() {
    let desc = obj(vec![
        ("text", s("Hello ")),
        ("bold", Json::Bool(true)),
        ("extra", Json::Array(vec![obj(vec![("text", s("world")), ("color", s("gold"))])])),
    ]);
    let rec = record(&status(desc, None));
    assert_eq!(rec.description, "Hello world");
}

#[test]
fn undeserializable_description_is_rejected() {
    let data = status(Json::Array(vec![obj(vec![("text", s("a"))]), s("b")]), None);
    assert_eq!(record(&data).description, "ab");
    let data = status(obj(vec![("translate", Json::Int(3))]), None);
    assert!(clean_response_data(&data, 0).is_none());
}

#[test]
fn descriptions_the_renderer_cannot_handle_are_rejected() {
    let nbt = obj(vec![("nbt", s("x")), ("interpret", Json::Int(1))]);
    assert!(clean_response_data(&status(nbt, None), 0).is_none());
    let positional = obj(vec![
        ("text", s("a")),
        ("extra", Json::Array(vec![obj(vec![("translate", s("%1"))])])),
    ]);
    assert!(clean_response_data(&status(positional, None), 0).is_none());
    let zero = obj(vec![("translate", s("%0$s"))]);
    assert!(clean_response_data(&status(zero, None), 0).is_none());
    let fallback = obj(vec![("translate", s("no.such.key")), ("fallback", s("x %2$s"))]);
    assert!(clean_response_data(&status(fallback, None), 0).is_none());
    let mut deep = s("x");
    for _ in 0..200 {
        deep = Json::Array(vec![deep]);
    }
    assert!(clean_response_data(&status(deep, None), 0).is_none());
    let fine = obj(vec![("text", s("50% off")), ("interpret", Json::Bool(true))]);
    assert_eq!(record(&status(fine, None)).description, "50% off");
}

#[test]
fn defaults_when_optional_fields_are_absent() {
    let rec = record(&obj(vec![("description", s("x"))]));
    assert_eq!(rec.version_name, "");
    assert_eq!(rec.protocol, 0);
    assert_eq!(rec.max_players, 0);
    assert_eq!(rec.online_players, 0);
    let negative = obj(vec![
        ("description", s("x")),
        ("players", obj(vec![("max", Json::Int(-5)), ("online", Json::Int(3_000_000_000))])),
    ]);
    let rec = record(&negative);
    assert_eq!(rec.max_players, 0);
    assert_eq!(rec.online_players, 0);
}

#[test]
fn placeholder_signatures_are_rejected() {
    let data = status(s("Start the server at FalixNodes.net/start now"), None);
    assert!(clean_response_data(&data, 0).is_none());
    let shield = obj(vec![
        ("description", s("hello")),
        ("version", obj(vec![("name", s("TCPShield.com"))])),
    ]);
    assert!(clean_response_data(&shield, 0).is_none());
    let warning = obj(vec![
        ("description", s("hello")),
        ("version", obj(vec![("name", s("\u{26a0} Error"))])),
    ]);
    assert!(clean_response_data(&warning, 0).is_none());
    assert!(is_placeholder("xx Serwer jest aktualnie wylaczony", "1.8"));
    assert!(!is_placeholder("A Minecraft Server", "TCPShield.com 2"));
    assert!(!is_placeholder("", ""));
}

#[test]
fn mod_markers_set_modded() {
    for key in ["forgeData", "modinfo", "modpackData"] {
        let data = obj(vec![("description", s("x")), (key, obj(vec![]))]);
        assert!(record(&data).is_modded);
    }
}

#[test]
fn online_sample_is_classified() {
    let rec = record(&status(s("x"), Some(vec![player(V4_ID, "Notch"), player(V4_ID_B, "jeb_")])));
    assert_eq!(rec.online_mode, OnlineMode::Online);
    let players = rec.players.as_ref().unwrap();
    assert_eq!(players.len(), 2);
    assert_eq!(players[0].id, "069a79f444e94726a5befca90e38aaf5");
    assert_eq!(players[0].name, "Notch");
    let fields = build_update_fields(&rec);
    assert!(matches!(field(&fields, "isCracked"), Some(FieldValue::Bool(true))));
    assert!(matches!(field(&fields, "lastActive"), Some(FieldValue::Time(1_000))));
    assert!(field(&fields, "lastEmpty").is_none());
    assert!(matches!(
        field(&fields, "players.069a79f444e94726a5befca90e38aaf5"),
        Some(FieldValue::Player { name, seen_at: 1_000 }) if name == "Notch"
    ));
}

#[test]
fn offline_sample_is_classified() {
    let rec = record(&status(s("x"), Some(vec![player(V3_ID, "steve")])));
    assert_eq!(rec.online_mode, OnlineMode::Offline);
    let fields = build_update_fields(&rec);
    assert!(matches!(field(&fields, "isCracked"), Some(FieldValue::Bool(false))));
}

#[test]
fn mixed_sample_stores_indeterminate_mode() {
    let rec = record(&status(s("x"), Some(vec![player(V4_ID, "a"), player(V3_ID, "b")])));
    assert_eq!(rec.online_mode, OnlineMode::Mixed);
    let fields = build_update_fields(&rec);
    let modes: Vec<&FieldValue> =
        fields.iter().filter(|(k, _)| k == "isCracked").map(|(_, v)| v).collect();
    assert_eq!(modes.len(), 1);
    assert!(matches!(modes[0], FieldValue::Null));
}

#[test]
fn anonymous_players_are_ignored_for_mode() {
    let rec = record(&status(
        s("x"),
        Some(vec![player(NIL_ID, "Anonymous Player"), player(V3_ID, "b")]),
    ));
    assert_eq!(rec.online_mode, OnlineMode::Offline);
    assert_eq!(rec.players.as_ref().unwrap().len(), 2);
}

#[test]
fn fabricated_sample_suppresses_player_fields() {
    let rec = record(&status(
        s("Survival"),
        Some(vec![player(V4_ID, "a"), player("not-a-uuid", "bob")]),
    ));
    assert!(rec.players.is_none());
    assert_eq!(rec.online_mode, OnlineMode::Unknown);
    assert_eq!(rec.description, "Survival");
    assert_eq!(rec.max_players, 20);
    assert_eq!(rec.online_players, 3);
    assert_eq!(rec.version_name, "1.20.4");
    let fields = build_update_fields(&rec);
    assert!(fields.iter().all(|(k, _)| !k.starts_with("players.")));
    assert!(field(&fields, "isCracked").is_none());
    assert!(field(&fields, "lastActive").is_none());
    assert!(field(&fields, "lastEmpty").is_none());
    assert!(matches!(field(&fields, "lastSeen"), Some(FieldValue::Time(1_000))));
    assert!(matches!(field(&fields, "description"), Some(FieldValue::Str(d)) if d == "Survival"));
}

#[test]
fn non_object_sample_entry_rejects_record() {
    let data = status(s("x"), Some(vec![player(V4_ID, "a"), s("oops")]));
    assert!(clean_response_data(&data, 0).is_none());
}

#[test]
fn privacy_motd_ignores_sample() {
    let data = status(s(PRIVACY_MOTD), Some(vec![s("oops"), player("junk", "x")]));
    let rec = record(&data);
    assert_eq!(rec.players.as_ref().map(|p| p.len()), Some(0));
    assert_eq!(rec.online_mode, OnlineMode::Unknown);
    let fields = build_update_fields(&rec);
    assert!(matches!(field(&fields, "lastEmpty"), Some(FieldValue::Time(1_000))));
}

#[test]
fn sample_is_capped_at_one_hundred() {
    let mut entries: Vec<Json> = (0..150).map(|_| player(V4_ID, "a")).collect();
    entries[120] = s("not an object");
    let report = read_sample(&entries).expect("only the first hundred are read");
    assert_eq!(report.players.len(), 100);
    assert!(!report.fabricated);
    entries[50] = s("not an object");
    assert!(read_sample(&entries).is_none());
}

#[test]
fn update_round_trip_fields() {
    let rec = record(&status(s("desc"), Some(vec![player(V4_ID, "Notch")])));
    let fields = build_update_fields(&rec);
    let keys: Vec<&str> = fields.iter().map(|(k, _)| k.as_str()).collect();
    assert_eq!(
        keys,
        vec![
            "updated_at",
            "online_players",
            "max_players",
            "version",
            "protocol",
            "description",
            "players.069a79f444e94726a5befca90e38aaf5",
            "isCracked",
            "lastSeen",
            "lastActive",
        ]
    );
    let mut shared = SharedData::new();
    let req = create_bulk_update(&mut shared, 0x0a000001, 25566, &rec).ok().expect("accepted");
    assert_eq!(req.ip, 0x0a000001);
    assert_eq!(req.port, 25566);
    assert!(req.upsert);
    assert_eq!(req.update.len(), fields.len());
    assert!(req.update.iter().all(|(k, _)| k != "ip" && k != "port"));
}

fn probe(shared: &mut SharedData, ip: u32, port: u16, description: &str) -> Result<(), UpdateRejected> {
    let rec = record(&status(s(description), None));
    create_bulk_update(shared, ip, port, &rec).map(|_| ())
}

#[test]
fn promotion_on_hundredth_distinct_port() {
    let mut shared = SharedData::new();
    let ip = 0x01020304;
    for i in 0..99u16 {
        assert_eq!(probe(&mut shared, ip, 1000 + i, "same"), Ok(()));
    }
    assert_eq!(probe(&mut shared, ip, 1099, "same"), Err(UpdateRejected::NewlyBlocked));
    assert!(shared.is_rejected(ip, 2000));
    assert_eq!(probe(&mut shared, ip, 2000, "same"), Err(UpdateRejected::BlockedAddress));
}

#[test]
fn changed_fingerprint_prevents_promotion() {
    let mut shared = SharedData::new();
    let ip = 0x01020305;
    for i in 0..200u16 {
        let description = if i == 49 { "different" } else { "same" };
        assert_eq!(probe(&mut shared, ip, 1000 + i, description), Ok(()));
    }
    assert_eq!(shared.ips_with_same_hash.get(&ip).unwrap().cached.count, None);
    assert!(!shared.is_rejected(ip, 5000));
}

#[test]
fn repeated_port_is_not_counted_twice() {
    let mut shared = SharedData::new();
    let ip = 0x01020306;
    for _ in 0..150 {
        assert_eq!(probe(&mut shared, ip, 30000, "same"), Ok(()));
    }
    let entry = shared.ips_with_same_hash.get(&ip).unwrap();
    assert_eq!(entry.cached.count, Some(1));
    assert_eq!(entry.ports.len(), 1);
    assert!(shared.register_probe(ip, 30001, entry.cached.hash) == false);
    assert_eq!(shared.ips_with_same_hash.get(&ip).unwrap().cached.count, Some(2));
}

#[test]
fn default_port_never_blocked() {
    let mut shared = SharedData::new();
    let ip = 0x01020307;
    shared.add_bad_ip(ip);
    assert!(!shared.is_rejected(ip, DEFAULT_PORT));
    assert_eq!(probe(&mut shared, ip, DEFAULT_PORT, "x"), Ok(()));
    assert_eq!(probe(&mut shared, ip, 25566, "x"), Err(UpdateRejected::BlockedAddress));
}

#[test]
fn process_outcomes() {
    let mut shared = SharedData::new();
    assert!(matches!(process(&mut shared, 5, 25565, &s("nope"), 0), ProbeOutcome::Ignored));
    let data = status(s("hi"), None);
    assert!(matches!(process(&mut shared, 5, 25565, &data, 0), ProbeOutcome::Write(_)));
    shared.add_bad_ip(5);
    assert!(matches!(
        process(&mut shared, 5, 1234, &data, 0),
        ProbeOutcome::Rejected(UpdateRejected::BlockedAddress)
    ));
}

#[test]
fn rescan_query_oldest_with_limit() {
    let now: i64 = 10_000_000;
    let q = rescan_query::<u8>(now, vec![], 3600, None, 86400, Some(3), None);
    assert_eq!(q.sort, Sort::Oldest);
    assert_eq!(q.limit, Some(3));
    assert_eq!(q.filter.len(), 1);
    assert_eq!(q.filter[0].0, "lastSeen");
    match &q.filter[0].1 {
        Condition::Between { after, before } => {
            assert_eq!(*after, now - 86_400_000);
            assert_eq!(*before, now - 3_600_000);
        }
        _ => panic!("expected a window"),
    }
}

#[test]
fn rescan_query_random_and_filters() {
    let q = rescan_query(1_000_000, vec![("version".to_string(), 7u8)], 10, Some(60), 100, None, Some(Sort::Random));
    assert_eq!(q.sort, Sort::Random);
    assert_eq!(q.limit, Some(10000000));
    assert_eq!(q.filter.len(), 3);
    assert_eq!(q.filter[0].0, "version");
    assert!(matches!(q.filter[0].1, Condition::Extra(7)));
    assert_eq!(q.filter[1].0, "lastSeen");
    assert_eq!(q.filter[2].0, "lastActive");
    assert!(matches!(q.filter[2].1, Condition::After(940_000)));
    assert_eq!(window_start_ms(i64::MIN + 5, 1), i64::MIN);
}

#[test]
fn extra_constraint_cannot_replace_policy_window() {
    let q = rescan_query(1_000_000, vec![("lastSeen".to_string(), 1u8)], 10, None, 100, None, None);
    let in_force: Vec<_> = q.filter.iter().filter(|(k, _)| k == "lastSeen").collect();
    assert!(matches!(
        in_force.last().unwrap().1,
        Condition::Between { after: 900_000, before: 990_000 }
    ));
}

#[test]
fn rescan_collector_drops_blocklisted() {
    let mut bad = HashSet::new();
    bad.insert(9u32);
    let mut c = RescanCollector::new(bad);
    assert_eq!(c.step(Some(1), Some(25565)), RescanStep::Keep);
    assert_eq!(c.step(None, Some(25565)), RescanStep::Skip);
    assert_eq!(c.step(Some(2), None), RescanStep::Skip);
    assert_eq!(c.step(Some(2), Some(70000)), RescanStep::Skip);
    assert_eq!(c.step(Some(9), Some(1234)), RescanStep::Purge(9));
    assert_eq!(c.step(Some(9), Some(1235)), RescanStep::Drop);
    assert_eq!(c.step(Some(9), Some(25565)), RescanStep::Keep);
    assert_eq!(
        c.ranges,
        vec![ScanTarget { ip: 1, port: 25565 }, ScanTarget { ip: 9, port: 25565 }]
    );
}

#[test]
fn fingerprint_selection() {
    let now: i64 = 1_000_000_000;
    let q = fingerprint_query(now);
    assert_eq!(q.seen_after, now - 7_200_000);
    assert_eq!(q.fingerprinted_before, now - 604_800_000);
    assert!(is_fingerprint_candidate(&q, now - 1000, None));
    assert!(is_fingerprint_candidate(&q, now - 1000, Some(now - 700_000_000)));
    assert!(!is_fingerprint_candidate(&q, now - 1000, Some(now - 1000)));
    assert!(!is_fingerprint_candidate(&q, now - 8_000_000, None));
    let mut c = FingerprintCollector::new();
    assert!(c.step(Some(1), Some(25565), None));
    assert!(c.step(Some(2), Some(25566), Some(760)));
    assert!(!c.step(None, Some(1), None));
    assert!(!c.step(Some(3), None, None));
    assert_eq!(c.results, vec![(ScanTarget { ip: 1, port: 25565 }, 47), (ScanTarget { ip: 2, port: 25566 }, 760)]);
    assert_eq!((c.seen, c.ip_missing, c.port_missing), (4, 1, 1));
}
