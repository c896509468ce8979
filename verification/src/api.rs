//! Helpers of the HTTP surface: request defaults, argument parsing,
//! constant-time token comparison, and the graph export's cap and time
//! projection.
use vstd::prelude::*;
use subtle::ConstantTimeEq;
use crate::engines::dream_steps::listed_in;
use crate::text::{chars_of, string_views, concat, eq_lit, lowercase, take_chars, to_lowercase, to_uppercase, uppercase};
use crate::types::{AgentId, LinkType, Visibility, VisibilityScope, opt_agent};

verus! {

/// `subtle`'s `<[u8] as ConstantTimeEq>::ct_eq`, turned into a `bool`: true
/// exactly when the two byte strings are equal (it answers at once when the
/// lengths differ).
#[verifier::external_body]
fn ct_eq_bytes(a: &[u8], b: &[u8]) -> (r: bool)
    ensures
        r == (a@ == b@),
{
    a.ct_eq(b).into()
}

/// Constant-time string equality for auth tokens: lengths are compared
/// first, then the bytes without an early exit.
pub fn ct_eq(a: &str, b: &str) -> (r: bool)
    ensures
        r == (a@ == b@),
{
    let x = a.as_bytes();
    let y = b.as_bytes();
    proof {
        vstd::utf8::encode_utf8_decode_utf8(a@);
        vstd::utf8::encode_utf8_decode_utf8(b@);
    }
    if x.len() != y.len() {
        return false;
    }
    ct_eq_bytes(x, y)
}

/// The error text for a memory that does not exist.
pub fn not_found(id: &str) -> (r: String)
    ensures
        r@ == "not found: "@ + id@,
{
    concat("not found: ", id)
}

/// The scope of a request: the named agent's, when one is named and the
/// name is not empty; else the unrestricted scope.
pub fn scope_from(agent_id: Option<&str>) -> (r: VisibilityScope)
    ensures
        !r.shared_only,
        opt_agent(r.agent_id) == (match agent_id {
            Some(a) => if a@.len() > 0 {
                Some(a@)
            } else {
                None
            },
            None => None,
        }),
{
    match agent_id {
        Some(a) => {
            if !a.is_empty() {
                VisibilityScope::for_agent(AgentId(a.to_string()))
            } else {
                VisibilityScope::global()
            }
        },
        None => VisibilityScope::global(),
    }
}

/// Canonical session priority: upper case, as the tool surface writes it.
pub fn normalize_priority(p: &str) -> (r: String)
    ensures
        r@ == uppercase(p@),
{
    to_uppercase(p)
}

/// The link type a name denotes; unknown names mean `Semantic`.
pub open spec fn link_type_spec(s: Seq<char>) -> LinkType {
    if s == "causal"@ {
        LinkType::Causal
    } else if s == "temporal"@ {
        LinkType::Temporal
    } else if s == "supports"@ {
        LinkType::Supports
    } else if s == "contradicts"@ {
        LinkType::Contradicts
    } else if s == "affective"@ {
        LinkType::Affective
    } else if s == "contextual"@ {
        LinkType::Contextual
    } else if s == "derived_from"@ {
        LinkType::DerivedFrom
    } else if s == "part_of"@ {
        LinkType::PartOf
    } else {
        LinkType::Semantic
    }
}

/// Parse a link type name (exact, lower case); unknown names mean
/// `Semantic`.
pub fn parse_link_type(s: &str) -> (r: LinkType)
    ensures
        r == link_type_spec(s@),
{
    let c = chars_of(s);
    let v = c.as_slice();
    if eq_lit(v, "causal") {
        LinkType::Causal
    } else if eq_lit(v, "temporal") {
        LinkType::Temporal
    } else if eq_lit(v, "supports") {
        LinkType::Supports
    } else if eq_lit(v, "contradicts") {
        LinkType::Contradicts
    } else if eq_lit(v, "affective") {
        LinkType::Affective
    } else if eq_lit(v, "contextual") {
        LinkType::Contextual
    } else if eq_lit(v, "derived_from") {
        LinkType::DerivedFrom
    } else if eq_lit(v, "part_of") {
        LinkType::PartOf
    } else {
        LinkType::Semantic
    }
}

/// An unknown visibility name, lower-cased.
pub struct UnknownVisibility(pub String);

impl UnknownVisibility {
    /// The error text.
    pub fn message(&self) -> (r: String)
        ensures
            r@ == "unknown visibility '"@ + self.0@ + "' (private|shared|thread)"@,
    {
        let a = concat("unknown visibility '", self.0.as_str());
        concat(a.as_str(), "' (private|shared|thread)")
    }
}

/// The visibility a lower-cased name denotes, if any.
pub open spec fn visibility_spec(l: Seq<char>) -> Option<Visibility> {
    if l == "private"@ {
        Some(Visibility::Private)
    } else if l == "shared"@ {
        Some(Visibility::Shared)
    } else if l == "thread"@ {
        Some(Visibility::Thread)
    } else {
        None
    }
}

/// Parse an optional visibility: absent gives `None` (the store's default
/// applies); a known name, case ignored, gives it; anything else is refused.
pub fn parse_visibility_opt(v: Option<&str>) -> (r: Result<Option<Visibility>, UnknownVisibility>)
    ensures
        match v {
            None => r matches Ok(None),
            Some(s) => match visibility_spec(lowercase(s@)) {
                Some(x) => r matches Ok(Some(y)) && y == x,
                None => r is Err && r->Err_0.0@ == lowercase(s@),
            },
        },
{
    match v {
        None => Ok(None),
        Some(s) => {
            let l = to_lowercase(s);
            let c = chars_of(l.as_str());
            let w = c.as_slice();
            if eq_lit(w, "private") {
                Ok(Some(Visibility::Private))
            } else if eq_lit(w, "shared") {
                Ok(Some(Visibility::Shared))
            } else if eq_lit(w, "thread") {
                Ok(Some(Visibility::Thread))
            } else {
                Err(UnknownVisibility(l))
            }
        },
    }
}

/// Default LLM-call budget of a dream run requested over HTTP.
pub fn default_max_llm_calls() -> (r: usize)
    ensures
        r == 20,
{
    20
}

/// Default page size of listings.
pub fn default_limit() -> (r: usize)
    ensures
        r == 50,
{
    50
}

/// Default number of recall results.
pub fn default_top_k() -> (r: usize)
    ensures
        r == 10,
{
    10
}

/// At most the first `max_chars` characters of `s`.
pub fn head_chars(s: &str, max_chars: usize) -> (r: String)
    ensures
        r@ == take_chars(s@, max_chars as int),
{
    crate::text::head_string(s, max_chars)
}

/// The instant an RFC 3339 text denotes, as whole seconds since the Unix
/// epoch and the nanoseconds past them (`chrono`'s `parse_from_rfc3339`,
/// then `timestamp` and `timestamp_subsec_nanos`); none when chrono does not
/// accept the text.
pub uninterp spec fn rfc3339_instant(s: Seq<char>) -> Option<(i64, u32)>;

/// `chrono::DateTime::parse_from_rfc3339`: the instant the text denotes, or
/// the parser's error text.
#[verifier::external_body]
fn parse_rfc3339(s: &str) -> (r: Result<(i64, u32), String>)
    ensures
        match r {
            Ok(t) => rfc3339_instant(s@) == Some(t),
            Err(_) => rfc3339_instant(s@) is None,
        },
{
    match chrono::DateTime::parse_from_rfc3339(s) {
        Ok(t) => Ok((t.timestamp(), t.timestamp_subsec_nanos())),
        Err(e) => Err(format!("{e}")),
    }
}

/// The later of two instants (seconds, then nanoseconds).
pub open spec fn later(a: (i64, u32), b: (i64, u32)) -> (i64, u32) {
    if a.0 > b.0 || (a.0 == b.0 && a.1 >= b.1) {
        a
    } else {
        b
    }
}

/// Why an export's projection instant was refused: the text, and the
/// parser's complaint.
pub struct BadProjection(pub String);

/// The instant a graph export is computed at, and whether a projection was
/// asked for: `now` without `at`; with it, the instant it names, moved
/// forward to `now` if earlier (the export cannot rewind).
pub fn resolve_projection(at: Option<&str>, now: (i64, u32)) -> (r: Result<((i64, u32), bool), BadProjection>)
    ensures
        match at {
            None => r == Ok::<((i64, u32), bool), BadProjection>((now, false)),
            Some(s) => match rfc3339_instant(s@) {
                None => r is Err,
                Some(t) => r == Ok::<((i64, u32), bool), BadProjection>((later(t, now), true)),
            },
        },
{
    match at {
        None => Ok((now, false)),
        Some(s) => match parse_rfc3339(s) {
            Ok(t) => {
                if t.0 > now.0 || (t.0 == now.0 && t.1 >= now.1) {
                    Ok((t, true))
                } else {
                    Ok((now, true))
                }
            },
            Err(e) => Err(BadProjection(concat("bad ?at= (want RFC3339): ", e.as_str()))),
        },
    }
}

/// How many memories a graph export holds at most by default.
pub const EXPORT_DEFAULT_CAP: usize = 4000;

/// The most memories a graph export may be asked for.
pub const EXPORT_MAX_CAP: usize = 20000;

/// The cap of a graph export: the one asked for, or the default, kept
/// between 1 and `EXPORT_MAX_CAP`.
pub fn export_cap(cap: Option<usize>) -> (r: usize)
    ensures
        r == (match cap {
            None => EXPORT_DEFAULT_CAP,
            Some(c) => if c < 1 {
                1
            } else if c > EXPORT_MAX_CAP {
                EXPORT_MAX_CAP
            } else {
                c
            },
        }),
{
    match cap {
        None => EXPORT_DEFAULT_CAP,
        Some(c) => {
            if c < 1 {
                1
            } else if c > EXPORT_MAX_CAP {
                EXPORT_MAX_CAP
            } else {
                c
            }
        },
    }
}


/// Whether a link joins two exported memories.
pub open spec fn link_within(ids: Seq<Seq<char>>, link: (String, String)) -> bool {
    ids.contains(link.0@) && ids.contains(link.1@)
}

/// The links a graph export draws: the positions, in order, of exactly
/// those links (source, target) whose two ends are both among the exported
/// memory ids.
pub fn export_edges(ids: &Vec<String>, links: &Vec<(String, String)>) -> (r: Vec<usize>)
    ensures
        forall|j: int|
            0 <= j < r@.len() ==> #[trigger] r@[j] < links@.len() && link_within(
                string_views(ids@),
                links@[r@[j] as int],
            ),
        forall|j: int, k: int| 0 <= j < k < r@.len() ==> r@[j] < r@[k],
        forall|i: int|
            0 <= i < links@.len() && link_within(string_views(ids@), #[trigger] links@[i])
                ==> r@.contains(i as usize),
{
    let mut out: Vec<usize> = Vec::new();
    let mut i: usize = 0;
    while i < links.len()
        invariant
            i <= links@.len(),
            forall|j: int|
                0 <= j < out@.len() ==> #[trigger] out@[j] < i && link_within(
                    string_views(ids@),
                    links@[out@[j] as int],
                ),
            forall|j: int, k: int| 0 <= j < k < out@.len() ==> out@[j] < out@[k],
            forall|q: int|
                0 <= q < i && link_within(string_views(ids@), #[trigger] links@[q])
                    ==> out@.contains(q as usize),
        decreases links@.len() - i,
    {
        if listed_in(ids, links[i].0.as_str()) && listed_in(ids, links[i].1.as_str()) {
            let ghost before = out@;
            assert(link_within(string_views(ids@), links@[i as int]));
            out.push(i);
            assert(forall|j: int| 0 <= j < before.len() ==> out@[j] == before[j]);
            assert(out@[before.len() as int] == i);
            assert forall|q: int|
                0 <= q < i + 1 && link_within(string_views(ids@), #[trigger] links@[q])
                    implies out@.contains(q as usize) by {
                if q < i {
                    let j = choose|j: int| 0 <= j < before.len() && before[j] == q as usize;
                    assert(out@[j] == q as usize);
                } else {
                    assert(out@[before.len() as int] == q as usize);
                }
            }
        }
        i = i + 1;
    }
    out
}

/// An export is never computed at an instant before `now`: a projection
/// into the past reads as the present.
pub proof fn law_projection_never_rewinds(t: (i64, u32), now: (i64, u32))
    ensures
        later(t, now).0 > now.0 || (later(t, now).0 == now.0 && later(t, now).1 >= now.1),
        later(t, now) == t || later(t, now) == now,
{
}

} // verus!
