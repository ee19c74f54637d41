use crate::json::Json;
use vstd::prelude::*;
use vstd::string::*;

verus! {

/// `needle` occurs in `hay` as a run of consecutive characters.
pub open spec fn occurs_in(hay: Seq<char>, needle: Seq<char>) -> bool {
    exists|i: int|
        0 <= i && i + needle.len() <= hay.len() && #[trigger] hay.subrange(i, i + needle.len())
            == needle
}

/// A lower-case hexadecimal digit.
pub open spec fn is_lower_hex(c: char) -> bool {
    ('0' <= c && c <= '9') || ('a' <= c && c <= 'f')
}

/// The 32 characters of `s` from `i` on are twelve hex digits, a version
/// digit `3` or `4`, and nineteen more hex digits.
pub open spec fn uuid_run_at(s: Seq<char>, i: int) -> bool {
    0 <= i && i + 32 <= s.len() && (forall|j: int| 0 <= j < 12 ==> is_lower_hex(#[trigger] s[i + j]))
        && (s[i + 12] == '3' || s[i + 12] == '4') && (forall|j: int|
        13 <= j < 32 ==> is_lower_hex(#[trigger] s[i + j]))
}

/// Somewhere in `s` stands a dash-less version-3 or version-4 identifier.
pub open spec fn has_uuid_run(s: Seq<char>) -> bool {
    exists|i: int| uuid_run_at(s, i)
}

/// The pattern that recognizes a dash-less version-3 or version-4 identifier.
pub const UUID_PATTERN: &'static str = "[0-9a-f]{12}[34][0-9a-f]{19}";

/// Nesting depth up to which a rich-text tree is handed to the renderer.
pub const RICH_TEXT_MAX_DEPTH: usize = 128;

/// The two-character sequences `%0` to `%9`.
pub open spec fn percent_digits() -> Seq<&'static str> {
    seq!["%0", "%1", "%2", "%3", "%4", "%5", "%6", "%7", "%8", "%9"]
}

/// The sequences `%0` to `%9`, in order.
pub fn percent_digit_pairs() -> (r: Vec<&'static str>)
    ensures
        r@ == percent_digits(),
{
    vec!["%0", "%1", "%2", "%3", "%4", "%5", "%6", "%7", "%8", "%9"]
}

/// Somewhere in `s` a `%` is followed by a decimal digit.
pub open spec fn has_percent_digit(s: Seq<char>) -> bool {
    exists|d: int| 0 <= d < 10 && occurs_in(s, #[trigger] percent_digits()[d]@)
}

/// One object entry is one the renderer handles without failing: an
/// `interpret` flag is a boolean, and a `translate` or `fallback` template
/// has no positional placeholder (`%` and a digit).
pub open spec fn entry_renderable(key: Seq<char>, value: Json) -> bool {
    &&& key == "interpret"@ ==> value is Bool
    &&& (key == "translate"@ || key == "fallback"@) ==> match value {
        Json::Str(t) => !has_percent_digit(t@),
        _ => true,
    }
}

/// The tree nests at most `depth` containers deep and every object entry in
/// it is renderable.
pub open spec fn rich_text_safe(j: Json, depth: nat) -> bool
    decreases depth,
{
    match j {
        Json::Array(a) => depth > 0 && forall|i: int|
            0 <= i < a@.len() ==> rich_text_safe(#[trigger] a@[i], (depth - 1) as nat),
        Json::Object(o) => depth > 0 && forall|i: int|
            0 <= i < o@.len() ==> entry_renderable((#[trigger] o@[i]).0@, o@[i].1) && rich_text_safe(
                o@[i].1,
                (depth - 1) as nat,
            ),
        _ => true,
    }
}

/// Whether `s` holds a `%` followed by a decimal digit.
pub fn contains_percent_digit(s: &str) -> (r: bool)
    ensures
        r == has_percent_digit(s@),
{
    let pairs = percent_digit_pairs();
    let mut d: usize = 0;
    while d < pairs.len()
        invariant
            pairs@ == percent_digits(),
            0 <= d <= pairs@.len(),
            forall|k: int| 0 <= k < d ==> !occurs_in(s@, #[trigger] percent_digits()[k]@),
        decreases pairs@.len() - d,
    {
        if str_contains(s, pairs[d]) {
            return true;
        }
        d = d + 1;
    }
    false
}

fn is_entry_renderable(key: &String, value: &Json) -> (r: bool)
    ensures
        r == entry_renderable(key@, *value),
{
    let interpret = String::from_str("interpret");
    let translate = String::from_str("translate");
    let fallback = String::from_str("fallback");
    if *key == interpret && !matches!(value, Json::Bool(_)) {
        return false;
    }
    if *key == translate || *key == fallback {
        if let Json::Str(t) = value {
            return !contains_percent_digit(t.as_str());
        }
    }
    true
}

/// Whether the tree nests at most `depth` containers deep and every object
/// entry in it is renderable.
pub fn is_rich_text_safe(j: &Json, depth: usize) -> (r: bool)
    ensures
        r == rich_text_safe(*j, depth as nat),
    decreases depth,
{
    match j {
        Json::Array(a) => {
            if depth == 0 {
                return false;
            }
            proof {
                assert(rich_text_safe(*j, depth as nat) <==> forall|k: int|
                    0 <= k < a@.len() ==> rich_text_safe(#[trigger] a@[k], (depth - 1) as nat));
            }
            let mut i: usize = 0;
            while i < a.len()
                invariant
                    depth > 0,
                    *j == Json::Array(*a),
                    rich_text_safe(*j, depth as nat) <==> forall|k: int|
                        0 <= k < a@.len() ==> rich_text_safe(#[trigger] a@[k], (depth - 1) as nat),
                    0 <= i <= a@.len(),
                    forall|k: int| 0 <= k < i ==> rich_text_safe(#[trigger] a@[k], (depth - 1) as nat),
                decreases a@.len() - i,
            {
                if !is_rich_text_safe(&a[i], depth - 1) {
                    proof {
                        assert(!rich_text_safe(a@[i as int], (depth - 1) as nat));
                    }
                    return false;
                }
                i = i + 1;
            }
            true
        },
        Json::Object(o) => {
            if depth == 0 {
                return false;
            }
            proof {
                assert(rich_text_safe(*j, depth as nat) <==> forall|k: int|
                    0 <= k < o@.len() ==> entry_renderable((#[trigger] o@[k]).0@, o@[k].1)
                        && rich_text_safe(o@[k].1, (depth - 1) as nat));
            }
            let mut i: usize = 0;
            while i < o.len()
                invariant
                    depth > 0,
                    *j == Json::Object(*o),
                    rich_text_safe(*j, depth as nat) <==> forall|k: int|
                        0 <= k < o@.len() ==> entry_renderable((#[trigger] o@[k]).0@, o@[k].1)
                            && rich_text_safe(o@[k].1, (depth - 1) as nat),
                    0 <= i <= o@.len(),
                    forall|k: int|
                        0 <= k < i ==> entry_renderable((#[trigger] o@[k]).0@, o@[k].1)
                            && rich_text_safe(o@[k].1, (depth - 1) as nat),
                decreases o@.len() - i,
            {
                if !is_entry_renderable(&o[i].0, &o[i].1) || !is_rich_text_safe(&o[i].1, depth - 1) {
                    proof {
                        let e = o@[i as int];
                        assert(!(entry_renderable(e.0@, e.1) && rich_text_safe(e.1, (depth - 1) as nat)));
                    }
                    return false;
                }
                i = i + 1;
            }
            true
        },
        _ => true,
    }
}

/// The plain text that a rich-text component renders to, or `None` where the
/// tree is not a rich-text component.
pub uninterp spec fn rich_text_plain(j: Json) -> Option<Seq<char>>;

#[verifier::external_type_specification]
#[verifier::external_body]
pub struct ExJsonValue(serde_json::Value);

/// Relies on `str::contains`: true when `needle` occurs in `hay`.
#[verifier::external_body]
pub(crate) fn str_contains(hay: &str, needle: &str) -> (r: bool)
    ensures
        r == occurs_in(hay@, needle@),
{
    hay.contains(needle)
}

/// Relies on `str::replace` with an empty replacement: every `c` is removed,
/// the other characters keep their order.
#[verifier::external_body]
pub(crate) fn without_char(s: &str, c: char) -> (r: String)
    ensures
        r@ == s@.filter(|x: char| x != c),
{
    s.replace(c, "")
}

/// Relies on `regex::Regex::new` accepting the identifier pattern and on
/// `Regex::is_match`, which reports a match anywhere in the haystack.
#[verifier::external_body]
pub(crate) fn matches_uuid_pattern(pattern: &str, s: &str) -> (r: bool)
    requires
        pattern@ == UUID_PATTERN@,
    ensures
        r == has_uuid_run(s@),
{
    regex::Regex::new(pattern).unwrap().is_match(s)
}

/// Hands the tree to serde_json as a `serde_json::Value`, one node for one.
#[verifier::external_body]
fn to_serde_value(j: &Json) -> serde_json::Value {
    match j {
        Json::Null => serde_json::Value::Null,
        Json::Bool(b) => serde_json::Value::Bool(*b),
        Json::Int(i) => serde_json::Value::from(*i),
        Json::OtherNumber(t) => t.parse().map(serde_json::Value::Number).unwrap_or_default(),
        Json::Str(s) => serde_json::Value::String(s.clone()),
        Json::Array(a) => serde_json::Value::Array(a.iter().map(to_serde_value).collect()),
        Json::Object(o) => o.iter().map(|(k, v)| (k.clone(), to_serde_value(v))).collect(),
    }
}

/// Relies on azalea_chat's `FormattedText` deserializer to read the tree as a
/// rich-text component, and on its `Display` impl, which renders the text
/// without any styling. The result depends on the tree alone. Both return on
/// the trees admitted here: a non-boolean `interpret` flag makes the
/// deserializer unwrap an error, and a `%` with a digit in a template makes
/// rendering fail or underflow; the depth bound keeps the recursion short.
#[verifier::external_body]
pub(crate) fn flatten_rich_text(j: &Json) -> (r: Option<String>)
    requires
        rich_text_safe(*j, RICH_TEXT_MAX_DEPTH as nat),
    ensures
        match r {
            Some(s) => rich_text_plain(*j) == Some(s@),
            None => rich_text_plain(*j) is None,
        },
{
    let v = to_serde_value(j);
    <azalea_chat::FormattedText as serde::Deserialize>::deserialize(&v).ok().map(|t| t.to_string())
}

} // verus!
