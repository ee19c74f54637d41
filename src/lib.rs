//! Ingestion core of a game-server discovery crawler: response normalization,
//! repeat/honeypot detection, update construction and rescan selection.

mod detector;
mod fingerprint;
mod json;
mod normalize;
mod rescan;
mod text;
mod update;

pub use detector::{
    CachedIpHash, RepeatEntry, SharedData, UpdateRejected, DEFAULT_PORT, PROMOTION_THRESHOLD,
};
pub use fingerprint::{
    fingerprint_query, is_fingerprint_candidate, FingerprintCollector, FingerprintQuery,
    DEFAULT_PROTOCOL, FINGERPRINT_COOLDOWN_SECS, ONLINE_WINDOW_SECS,
};
pub use json::{find_key, get_field, get_i32_or_zero, get_str_or_empty, Json};
pub use normalize::{
    clean_response_data, description_signatures, is_placeholder, read_sample,
    version_signatures, NormalizedRecord, OnlineMode, SampleReport, SeenPlayer,
    ANONYMOUS_PLAYER_NAME, MAX_SAMPLE, PRIVACY_MOTD,
};
pub use rescan::{
    rescan_query, window_start_ms, Condition, RescanCollector, RescanQuery, RescanStep,
    ScanTarget, Sort, UNLIMITED_SAMPLE,
};
pub use text::UUID_PATTERN;
pub use update::{
    build_update_fields, create_bulk_update, process, BulkUpdate, FieldValue, ProbeOutcome,
};
