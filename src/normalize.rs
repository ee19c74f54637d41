use crate::json::{field_of, get_field, get_i32_or_zero, get_str_or_empty, i32_of, str_of, Json};
use crate::text::{
    flatten_rich_text, has_uuid_run, is_rich_text_safe, rich_text_safe, RICH_TEXT_MAX_DEPTH, matches_uuid_pattern, occurs_in, rich_text_plain,
    str_contains, without_char, UUID_PATTERN,
};
use vstd::prelude::*;
use vstd::string::*;

verus! {

/// Name that servers show for players who hide their identity; such players
/// carry the all-zero identifier.
pub const ANONYMOUS_PLAYER_NAME: &'static str = "Anonymous Player";

/// Description of servers that fill their player sample with random entries.
pub const PRIVACY_MOTD: &'static str =
    "To protect the privacy of this server and its\nusers, you must log in once to see ping data.";

/// At most this many sample entries are read from one response.
pub const MAX_SAMPLE: usize = 100;

/// How the players of a server authenticate, as far as the sample shows.
#[derive(Clone, Copy, Debug, PartialEq, Eq, Structural)]
pub enum OnlineMode {
    Online,
    Offline,
    Mixed,
    Unknown,
}

/// One entry of a player sample: dash-less identifier and display name.
pub struct SeenPlayer {
    pub id: String,
    pub name: String,
}

/// The canonical fields of one accepted status response.
pub struct NormalizedRecord {
    /// The description, flattened to plain text.
    pub description: String,
    pub version_name: String,
    pub protocol: i32,
    pub max_players: i32,
    pub online_players: i32,
    pub is_modded: bool,
    /// The player sample, or `None` when it was judged fabricated.
    pub players: Option<Vec<SeenPlayer>>,
    pub online_mode: OnlineMode,
    /// When the response was received, in milliseconds since the epoch.
    pub seen_at: i64,
}

/// Description fragments of hosting-provider placeholders and scan shields.
pub open spec fn banned_fragments() -> Seq<&'static str> {
    seq![
        "Craftserve.pl - wydajny hosting Minecraft!",
        "Ochrona DDoS: Przekroczono limit polaczen.",
        "\u{a8} |  ",
        "Start the server at FalixNodes.net/start",
        "This server is offline Powcered by FalixNodes.net",
        "Serwer jest aktualnie wy",
        "Blad pobierania statusu. Polacz sie bezposrednio!",
    ]
}

/// Version names of scan shields and placeholder responders.
pub open spec fn banned_versions() -> Seq<&'static str> {
    seq!["COSMIC GUARD", "TCPShield.com", "\u{e2}\u{9a}\u{a0} Error", "\u{26a0} Error"]
}

/// The description fragments that mark a response as a placeholder.
pub fn description_signatures() -> (r: Vec<&'static str>)
    ensures
        r@ == banned_fragments(),
{
    vec![
        "Craftserve.pl - wydajny hosting Minecraft!",
        "Ochrona DDoS: Przekroczono limit polaczen.",
        "\u{a8} |  ",
        "Start the server at FalixNodes.net/start",
        "This server is offline Powcered by FalixNodes.net",
        "Serwer jest aktualnie wy",
        "Blad pobierania statusu. Polacz sie bezposrednio!",
    ]
}

/// The version names that mark a response as a placeholder.
pub fn version_signatures() -> (r: Vec<&'static str>)
    ensures
        r@ == banned_versions(),
{
    vec!["COSMIC GUARD", "TCPShield.com", "\u{e2}\u{9a}\u{a0} Error", "\u{26a0} Error"]
}

/// The response is a known placeholder or scan-shield answer.
pub open spec fn is_honeypot(description: Seq<char>, version: Seq<char>) -> bool {
    (exists|i: int| 0 <= i < banned_fragments().len() && occurs_in(description, #[trigger] banned_fragments()[i]@))
        || (exists|i: int| 0 <= i < banned_versions().len() && version == #[trigger] banned_versions()[i]@)
}

/// The string under `inner` of the object under `outer`, or empty.
pub open spec fn nested_str(data: Json, outer: Seq<char>, inner: Seq<char>) -> Seq<char> {
    match field_of(data, outer) {
        Some(o) => match str_of(field_of(o, inner)) {
            Some(s) => s,
            None => Seq::empty(),
        },
        None => Seq::empty(),
    }
}

/// The 32-bit integer under `inner` of the object under `outer`, or zero.
pub open spec fn nested_i32(data: Json, outer: Seq<char>, inner: Seq<char>) -> i32 {
    match field_of(data, outer) {
        Some(o) => match i32_of(field_of(o, inner)) {
            Some(v) => v,
            None => 0,
        },
        None => 0,
    }
}

/// The sample entries that are read: at most the first hundred.
pub open spec fn sample_entries(data: Json) -> Seq<Json> {
    match field_of(data, "players"@) {
        Some(p) => match field_of(p, "sample"@) {
            Some(Json::Array(a)) => capped(a@),
            _ => Seq::empty(),
        },
        None => Seq::empty(),
    }
}

/// The dash-less identifier of a sample entry.
pub open spec fn entry_id(p: Json) -> Seq<char> {
    match str_of(field_of(p, "id"@)) {
        Some(s) => s.filter(|x: char| x != '-'),
        None => Seq::<char>::empty(),
    }
}

/// The display name of a sample entry.
pub open spec fn entry_name(p: Json) -> Seq<char> {
    match str_of(field_of(p, "name"@)) {
        Some(s) => s,
        None => Seq::empty(),
    }
}

/// The entry carries a recognized identifier, or is the anonymous player.
pub open spec fn entry_plausible(p: Json) -> bool {
    has_uuid_run(entry_id(p)) || entry_name(p) == ANONYMOUS_PLAYER_NAME@
}

/// The identifier is made of zeros only (the anonymous identifier).
pub open spec fn is_nil_id(id: Seq<char>) -> bool {
    id.filter(|x: char| x != '0').len() == 0
}

/// The identifier has the random (version 4) scheme of online accounts.
pub open spec fn is_v4_id(id: Seq<char>) -> bool {
    id.len() > 12 && id[12] == '4'
}

/// Evidence gathered so far: the scheme of the first identifier seen, and
/// whether two schemes were seen.
pub open spec fn mode_step(st: (Option<bool>, bool), id: Seq<char>) -> (Option<bool>, bool) {
    if st.1 || is_nil_id(id) {
        st
    } else if (is_v4_id(id) && st.0 == Some(false)) || (!is_v4_id(id) && st.0 == Some(true)) {
        (st.0, true)
    } else if st.0 is None {
        (Some(is_v4_id(id)), false)
    } else {
        st
    }
}

/// The evidence gathered over a list of identifiers, in order.
pub open spec fn mode_evidence(ids: Seq<Seq<char>>) -> (Option<bool>, bool)
    decreases ids.len(),
{
    if ids.len() == 0 {
        (None, false)
    } else {
        mode_step(mode_evidence(ids.drop_last()), ids.last())
    }
}

/// The classification that the evidence supports.
pub open spec fn mode_of(st: (Option<bool>, bool)) -> OnlineMode {
    if st.1 {
        OnlineMode::Mixed
    } else {
        match st.0 {
            Some(true) => OnlineMode::Online,
            Some(false) => OnlineMode::Offline,
            None => OnlineMode::Unknown,
        }
    }
}

/// At most the first hundred entries of `a`.
pub open spec fn capped(a: Seq<Json>) -> Seq<Json> {
    if a.len() <= MAX_SAMPLE {
        a
    } else {
        a.take(MAX_SAMPLE as int)
    }
}

/// The identifiers of the entries, in order.
pub open spec fn ids_of(s: Seq<Json>) -> Seq<Seq<char>> {
    s.map_values(|p: Json| entry_id(p))
}

/// What a player sample shows.
pub struct SampleReport {
    /// The entries read, in order.
    pub players: Vec<SeenPlayer>,
    /// Some entry has neither a recognized identifier nor the anonymous name.
    pub fabricated: bool,
    pub online_mode: OnlineMode,
}

/// Reads the players of one entry.
fn read_entry(p: &Json) -> (r: SeenPlayer)
    ensures
        r.id@ == entry_id(*p),
        r.name@ == entry_name(*p),
{
    let id_key = String::from_str("id");
    let name_key = String::from_str("name");
    let raw_id = get_str_or_empty(p, &id_key);
    let id = without_char(raw_id.as_str(), '-');
    let name = get_str_or_empty(p, &name_key);
    proof {
        assert(Seq::<char>::empty().filter(|x: char| x != '-') =~= Seq::<char>::empty());
    }
    SeenPlayer { id, name }
}

/// Reads a player sample: the first hundred entries, whether any of them is
/// implausible, and the online mode that their identifiers show. `None` when
/// one of the entries read is not an object.
pub fn read_sample(entries: &Vec<Json>) -> (r: Option<SampleReport>)
    ensures
        r is None <==> exists|i: int|
            0 <= i < capped(entries@).len() && !(#[trigger] capped(entries@)[i] is Object),
        r matches Some(rep) ==> {
            let s = capped(entries@);
            &&& rep.players@.len() == s.len()
            &&& forall|i: int|
                0 <= i < s.len() ==> (#[trigger] rep.players@[i]).id@ == entry_id(s[i])
                    && rep.players@[i].name@ == entry_name(s[i])
            &&& rep.fabricated == exists|i: int| 0 <= i < s.len() && !entry_plausible(#[trigger] s[i])
            &&& rep.online_mode == mode_of(mode_evidence(ids_of(s)))
        },
{
    let n: usize = if entries.len() <= MAX_SAMPLE {
        entries.len()
    } else {
        MAX_SAMPLE
    };
    let ghost s = capped(entries@);
    let anonymous = String::from_str(ANONYMOUS_PLAYER_NAME);
    let mut players: Vec<SeenPlayer> = Vec::new();
    let mut fabricated = false;
    let mut first_scheme: Option<bool> = None;
    let mut mixed = false;
    let mut i: usize = 0;
    while i < n
        invariant
            s == capped(entries@),
            n == s.len(),
            n <= entries@.len(),
            forall|j: int| 0 <= j < n ==> s[j] == entries@[j],
            anonymous@ == ANONYMOUS_PLAYER_NAME@,
            0 <= i <= n,
            players@.len() == i,
            forall|j: int|
                0 <= j < i ==> (#[trigger] players@[j]).id@ == entry_id(s[j])
                    && players@[j].name@ == entry_name(s[j]),
            forall|j: int| 0 <= j < i ==> #[trigger] s[j] is Object,
            fabricated == exists|j: int| 0 <= j < i && !entry_plausible(#[trigger] s[j]),
            (first_scheme, mixed) == mode_evidence(ids_of(s.take(i as int))),
        decreases n - i,
    {
        let p = &entries[i];
        if !matches!(p, Json::Object(_)) {
            proof {
                assert(!(capped(entries@)[i as int] is Object));
            }
            return None;
        }
        let player = read_entry(p);
        let implausible = !matches_uuid_pattern(UUID_PATTERN, player.id.as_str()) && !(player.name
            == anonymous);
        proof {
            assert(implausible == !entry_plausible(s[i as int]));
            if implausible {
                assert(!entry_plausible(s[i as int]));
            } else {
                assert forall|j: int| 0 <= j < i + 1 && !entry_plausible(#[trigger] s[j]) implies j
                    < i by {}
            }
        }
        if implausible {
            fabricated = true;
        }
        if !mixed {
            let zeros_removed = without_char(player.id.as_str(), '0');
            let is_nil = zeros_removed.as_str().unicode_len() == 0;
            if !is_nil {
                let is_v4 = player.id.as_str().unicode_len() > 12 && player.id.as_str().get_char(12) == '4';
                if (is_v4 && first_scheme == Some(false)) || (!is_v4 && first_scheme == Some(true)) {
                    mixed = true;
                } else if first_scheme.is_none() {
                    first_scheme = Some(is_v4);
                }
            }
        }
        proof {
            assert(ids_of(s.take(i + 1)).drop_last() =~= ids_of(s.take(i as int)));
        }
        players.push(player);
        i = i + 1;
    }
    proof {
        assert(s.take(n as int) =~= s);
    }
    let online_mode = if mixed {
        OnlineMode::Mixed
    } else {
        match first_scheme {
            Some(true) => OnlineMode::Online,
            Some(false) => OnlineMode::Offline,
            None => OnlineMode::Unknown,
        }
    };
    Some(SampleReport { players, fabricated, online_mode })
}

/// The description flattened to plain text, when there is one that the
/// renderer is safely handed.
pub open spec fn description_text(data: Json) -> Option<Seq<char>> {
    match field_of(data, "description"@) {
        Some(d) => if rich_text_safe(d, RICH_TEXT_MAX_DEPTH as nat) {
            rich_text_plain(d)
        } else {
            None
        },
        None => None,
    }
}

/// The response is a status payload that is kept: it has a readable
/// description, is no known placeholder, and every sample entry read is an
/// object (unless the sample is ignored).
pub open spec fn accepted(data: Json) -> bool {
    match description_text(data) {
        None => false,
        Some(t) => !is_honeypot(t, nested_str(data, "version"@, "name"@)) && (t == PRIVACY_MOTD@
            || forall|i: int|
            0 <= i < sample_entries(data).len() ==> #[trigger] sample_entries(data)[i] is Object),
    }
}

/// Some sample entry read is implausible.
pub open spec fn sample_fabricated(data: Json) -> bool {
    exists|i: int|
        0 <= i < sample_entries(data).len() && !entry_plausible(#[trigger] sample_entries(data)[i])
}

/// One of the mod-loader markers is present.
pub open spec fn modded(data: Json) -> bool {
    field_of(data, "forgeData"@) is Some || field_of(data, "modinfo"@) is Some || field_of(
        data,
        "modpackData"@,
    ) is Some
}

/// `rec` holds exactly the fields that an accepted `data`, received at
/// `now`, normalizes to.
pub open spec fn record_of(data: Json, now: i64, rec: NormalizedRecord) -> bool {
    &&& description_text(data) == Some(rec.description@)
    &&& rec.version_name@ == nested_str(data, "version"@, "name"@)
    &&& rec.protocol == nested_i32(data, "version"@, "protocol"@)
    &&& rec.max_players == nested_i32(data, "players"@, "max"@)
    &&& rec.online_players == nested_i32(data, "players"@, "online"@)
    &&& rec.is_modded == modded(data)
    &&& rec.seen_at == now
    &&& if rec.description@ == PRIVACY_MOTD@ {
        rec.players matches Some(v) && v@.len() == 0 && rec.online_mode == OnlineMode::Unknown
    } else if sample_fabricated(data) {
        rec.players is None && rec.online_mode == OnlineMode::Unknown
    } else {
        let s = sample_entries(data);
        &&& rec.players matches Some(v) && v@.len() == s.len() && forall|i: int|
            0 <= i < s.len() ==> (#[trigger] v@[i]).id@ == entry_id(s[i]) && v@[i].name@
                == entry_name(s[i])
        &&& rec.online_mode == mode_of(mode_evidence(ids_of(s)))
    }
}

/// Whether the description or the version name matches a known placeholder.
pub fn is_placeholder(description: &str, version: &str) -> (r: bool)
    ensures
        r == is_honeypot(description@, version@),
{
    let fragments = description_signatures();
    let mut i: usize = 0;
    while i < fragments.len()
        invariant
            fragments@ == banned_fragments(),
            0 <= i <= fragments@.len(),
            forall|j: int| 0 <= j < i ==> !occurs_in(description@, #[trigger] banned_fragments()[j]@),
        decreases fragments@.len() - i,
    {
        if str_contains(description, fragments[i]) {
            return true;
        }
        i = i + 1;
    }
    let versions = version_signatures();
    let v = String::from_str(version);
    let mut k: usize = 0;
    while k < versions.len()
        invariant
            versions@ == banned_versions(),
            v@ == version@,
            0 <= k <= versions@.len(),
            forall|j: int| 0 <= j < banned_fragments().len() ==> !occurs_in(description@, #[trigger] banned_fragments()[j]@),
            forall|j: int| 0 <= j < k ==> version@ != #[trigger] banned_versions()[j]@,
        decreases versions@.len() - k,
    {
        let candidate = String::from_str(versions[k]);
        if candidate == v {
            return true;
        }
        k = k + 1;
    }
    false
}

/// Normalizes one decoded status payload received at `now`: `None` when it
/// is not a usable response, else its canonical fields.
pub fn clean_response_data(data: &Json, now: i64) -> (r: Option<NormalizedRecord>)
    ensures
        r is Some <==> accepted(*data),
        r matches Some(rec) ==> record_of(*data, now, rec),
{
    let description_json = match get_field(data, &String::from_str("description")) {
        Some(d) => d,
        None => return None,
    };
    if !is_rich_text_safe(description_json, RICH_TEXT_MAX_DEPTH) {
        return None;
    }
    let description = match flatten_rich_text(description_json) {
        Some(t) => t,
        None => return None,
    };
    let version_key = String::from_str("version");
    let players_key = String::from_str("players");
    let version_name = match get_field(data, &version_key) {
        Some(v) => get_str_or_empty(v, &String::from_str("name")),
        None => String::new(),
    };
    let protocol = match get_field(data, &version_key) {
        Some(v) => get_i32_or_zero(v, &String::from_str("protocol")),
        None => 0,
    };
    let max_players = match get_field(data, &players_key) {
        Some(p) => get_i32_or_zero(p, &String::from_str("max")),
        None => 0,
    };
    let online_players = match get_field(data, &players_key) {
        Some(p) => get_i32_or_zero(p, &String::from_str("online")),
        None => 0,
    };
    let is_modded = get_field(data, &String::from_str("forgeData")).is_some() || get_field(
        data,
        &String::from_str("modinfo"),
    ).is_some() || get_field(data, &String::from_str("modpackData")).is_some();
    if is_placeholder(description.as_str(), version_name.as_str()) {
        return None;
    }
    let privacy = String::from_str(PRIVACY_MOTD);
    let (players, online_mode) = if description == privacy {
        (Some(Vec::new()), OnlineMode::Unknown)
    } else {
        let report = match get_field(data, &players_key) {
            Some(p) => match get_field(p, &String::from_str("sample")) {
                Some(Json::Array(a)) => match read_sample(a) {
                    Some(rep) => rep,
                    None => return None,
                },
                _ => SampleReport {
                    players: Vec::new(),
                    fabricated: false,
                    online_mode: OnlineMode::Unknown,
                },
            },
            None => SampleReport {
                players: Vec::new(),
                fabricated: false,
                online_mode: OnlineMode::Unknown,
            },
        };
        if report.fabricated {
            (None, OnlineMode::Unknown)
        } else {
            (Some(report.players), report.online_mode)
        }
    };
    Some(
        NormalizedRecord {
            description,
            version_name,
            protocol,
            max_players,
            online_players,
            is_modded,
            players,
            online_mode,
            seen_at: now,
        },
    )
}

/// A payload without a description is never accepted.
pub proof fn lemma_no_description_rejected(data: Json)
    requires
        field_of(data, "description"@) is None,
    ensures
        !accepted(data),
{
}

/// Over identifiers none of which is all zeros, the first one fixes the
/// scheme, and the evidence is mixed exactly when another scheme occurs.
pub proof fn lemma_evidence_without_nil(ids: Seq<Seq<char>>)
    requires
        ids.len() > 0,
        forall|i: int| 0 <= i < ids.len() ==> !is_nil_id(#[trigger] ids[i]),
    ensures
        mode_evidence(ids).0 == Some(is_v4_id(ids[0])),
        mode_evidence(ids).1 <==> exists|k: int|
            0 <= k < ids.len() && is_v4_id(#[trigger] ids[k]) != is_v4_id(ids[0]),
    decreases ids.len(),
{
    let init = ids.drop_last();
    assert(mode_evidence(ids) == mode_step(mode_evidence(init), ids.last()));
    assert(ids.last() == ids[ids.len() - 1]);
    if ids.len() == 1 {
        assert(init.len() == 0);
        assert(mode_evidence(init) == (None::<bool>, false));
    } else {
        lemma_evidence_without_nil(init);
        assert(init[0] == ids[0]);
        assert(!is_nil_id(ids[ids.len() - 1]));
        if mode_evidence(init).1 {
            let k = choose|k: int| 0 <= k < init.len() && is_v4_id(#[trigger] init[k]) != is_v4_id(init[0]);
            assert(is_v4_id(ids[k]) != is_v4_id(ids[0]));
        } else if exists|k: int| 0 <= k < ids.len() && is_v4_id(#[trigger] ids[k]) != is_v4_id(ids[0]) {
            let k = choose|k: int| 0 <= k < ids.len() && is_v4_id(#[trigger] ids[k]) != is_v4_id(ids[0]);
            if k < init.len() {
                assert(is_v4_id(init[k]) != is_v4_id(init[0]));
            }
        }
    }
}

} // verus!
