//! GatingEngine (thalamus): filters incoming content and classifies it.
use vstd::prelude::*;
use crate::text::{
    any_sub, has_sub, chars_of, contains_any, count_contained, count_subs, lowercase, str_views, to_lowercase,
    trim, trim_vec, utf8_len_at_least,
};
use crate::types::{MemoryLayer, MemoryType};

verus! {

/// Content shorter than this (in UTF-8 bytes, after trimming) is gated out.
pub const MIN_CONTENT_LENGTH: usize = 10;

/// Content longer than this (in UTF-8 bytes) is gated out: the single-memory
/// cap of 64 KiB.
pub const MAX_CONTENT_LENGTH: usize = 65536;

pub open spec fn procedural_markers() -> Seq<Seq<char>> {
    seq![
        "step 1"@,
        "1)"@,
        "first,"@,
        "when you"@,
        "how to"@,
        "workflow"@,
        "procedure"@,
        "algorithm"@,
        "strategy"@,
    ]
}

pub open spec fn affective_markers() -> Seq<Seq<char>> {
    seq![
        "felt"@,
        "feeling"@,
        "amazing"@,
        "frustrat"@,
        "excit"@,
        "disappoint"@,
        "breakthrough"@,
        "terrible"@,
        "love"@,
        "hate"@,
    ]
}

pub open spec fn prospective_markers() -> Seq<Seq<char>> {
    seq![
        "need to"@,
        "should"@,
        "todo"@,
        "plan to"@,
        "will"@,
        "going to"@,
        "revisit"@,
        "later"@,
        "eventually"@,
    ]
}

pub open spec fn episodic_markers() -> Seq<Seq<char>> {
    seq![
        "then"@,
        "after"@,
        "before"@,
        "yesterday"@,
        "today"@,
        "session"@,
        "deployed"@,
        "tried"@,
        "encountered"@,
    ]
}

/// The memory type of content whose lowercase form is `lower`: the first
/// marker family with a hit decides, in the order procedural, affective,
/// prospective, episodic; semantic otherwise.
pub open spec fn classify_type_spec(lower: Seq<char>) -> MemoryType {
    if any_sub(lower, procedural_markers()) {
        MemoryType::Procedural
    } else if any_sub(lower, affective_markers()) {
        MemoryType::Affective
    } else if any_sub(lower, prospective_markers()) {
        MemoryType::Prospective
    } else if any_sub(lower, episodic_markers()) {
        MemoryType::Episodic
    } else {
        MemoryType::Semantic
    }
}


/// The marker families decide in the order procedural, affective,
/// prospective, episodic: a family's marker classifies content only when
/// no earlier family has one, whatever later families it also holds; content
/// with no marker at all is semantic.
pub proof fn law_marker_family_order(lower: Seq<char>)
    ensures
        any_sub(lower, procedural_markers()) ==> classify_type_spec(lower) == MemoryType::Procedural,
        !any_sub(lower, procedural_markers()) && any_sub(lower, affective_markers())
            ==> classify_type_spec(lower) == MemoryType::Affective,
        !any_sub(lower, procedural_markers()) && !any_sub(lower, affective_markers()) && any_sub(
            lower,
            prospective_markers(),
        ) ==> classify_type_spec(lower) == MemoryType::Prospective,
        !any_sub(lower, procedural_markers()) && !any_sub(lower, affective_markers()) && !any_sub(
            lower,
            prospective_markers(),
        ) && any_sub(lower, episodic_markers()) ==> classify_type_spec(lower) == MemoryType::Episodic,
        !any_sub(lower, procedural_markers()) && !any_sub(lower, affective_markers()) && !any_sub(
            lower,
            prospective_markers(),
        ) && !any_sub(lower, episodic_markers()) ==> classify_type_spec(lower) == MemoryType::Semantic,
{
}

/// Content that says it "need to" do something, with no procedural or
/// affective marker, is prospective even when it also tells of what was
/// deployed or done today.
pub proof fn law_need_to_is_prospective(lower: Seq<char>)
    requires
        has_sub(lower, "need to"@),
        !any_sub(lower, procedural_markers()),
        !any_sub(lower, affective_markers()),
    ensures
        classify_type_spec(lower) == MemoryType::Prospective,
{
    assert(prospective_markers()[0] == "need to"@);
    assert(any_sub(lower, prospective_markers()));
}

/// Content that tells only of what was deployed (no procedural, affective
/// or prospective marker) is episodic.
pub proof fn law_deployed_is_episodic(lower: Seq<char>)
    requires
        has_sub(lower, "deployed"@),
        !any_sub(lower, procedural_markers()),
        !any_sub(lower, affective_markers()),
        !any_sub(lower, prospective_markers()),
    ensures
        classify_type_spec(lower) == MemoryType::Episodic,
{
    assert(episodic_markers()[6] == "deployed"@);
    assert(any_sub(lower, episodic_markers()));
}

/// Content is let through when, once trimmed, its UTF-8 encoding is at least
/// `MIN_CONTENT_LENGTH` bytes long, and the content as given is at most
/// `MAX_CONTENT_LENGTH` bytes (one memory is a note, not a document).
pub open spec fn passes_gate_spec(content: Seq<char>) -> bool {
    &&& vstd::utf8::encode_utf8(trim(content)).len() >= MIN_CONTENT_LENGTH
    &&& vstd::utf8::encode_utf8(content).len() <= MAX_CONTENT_LENGTH
}

/// Words whose presence makes content more memorable.
pub open spec fn salience_keywords() -> Seq<Seq<char>> {
    seq![
        "important"@, "critical"@, "bug"@, "fix"@, "error"@, "breakthrough"@,
        "discovery"@, "remember"@, "never"@, "always"@, "warning"@, "danger"@,
        "lesson"@, "learned"@, "insight"@,
    ]
}

/// The layer a new memory starts in: procedures and schemas always start in
/// working memory, anything else there only when its salience reaches the
/// working threshold, and in the sensory layer otherwise.
pub open spec fn layer_spec(memory_type: MemoryType, reaches_working: bool) -> MemoryLayer {
    if memory_type == MemoryType::Procedural || memory_type == MemoryType::Schematic {
        MemoryLayer::Working
    } else if reaches_working {
        MemoryLayer::Working
    } else {
        MemoryLayer::Sensory
    }
}

/// GatingEngine — thalamus.
pub struct GatingEngine;

impl Default for GatingEngine {
    fn default() -> (r: Self)
        ensures
            r == GatingEngine,
    {
        GatingEngine::new()
    }
}

impl GatingEngine {
    pub fn new() -> (r: Self)
        ensures
            r == GatingEngine,
    {
        GatingEngine
    }

    /// Heuristic memory type classification — keyword-based fast path.
    pub fn classify_type(&self, content: &str) -> (r: MemoryType)
        ensures
            r == classify_type_spec(lowercase(content@)),
    {
        let lower_s = to_lowercase(content);
        let lower = chars_of(lower_s.as_str());
        let procedural = vec![
            "step 1",
            "1)",
            "first,",
            "when you",
            "how to",
            "workflow",
            "procedure",
            "algorithm",
            "strategy",
        ];
        assert(str_views(procedural@) =~= procedural_markers());
        if contains_any(lower.as_slice(), procedural.as_slice()) {
            return MemoryType::Procedural;
        }
        let affective = vec![
            "felt",
            "feeling",
            "amazing",
            "frustrat",
            "excit",
            "disappoint",
            "breakthrough",
            "terrible",
            "love",
            "hate",
        ];
        assert(str_views(affective@) =~= affective_markers());
        if contains_any(lower.as_slice(), affective.as_slice()) {
            return MemoryType::Affective;
        }
        let prospective = vec![
            "need to",
            "should",
            "todo",
            "plan to",
            "will",
            "going to",
            "revisit",
            "later",
            "eventually",
        ];
        assert(str_views(prospective@) =~= prospective_markers());
        if contains_any(lower.as_slice(), prospective.as_slice()) {
            return MemoryType::Prospective;
        }
        let episodic = vec![
            "then",
            "after",
            "before",
            "yesterday",
            "today",
            "session",
            "deployed",
            "tried",
            "encountered",
        ];
        assert(str_views(episodic@) =~= episodic_markers());
        if contains_any(lower.as_slice(), episodic.as_slice()) {
            return MemoryType::Episodic;
        }
        MemoryType::Semantic
    }

    /// Gate 1 of `evaluate_input`: whether content is long enough, and not
    /// too long, to store.
    pub fn passes_length_gate(&self, content: &str) -> (r: bool)
        ensures
            r == passes_gate_spec(content@),
    {
        let cs = chars_of(content);
        let t = trim_vec(cs.as_slice());
        utf8_len_at_least(t.as_slice(), MIN_CONTENT_LENGTH) && !utf8_len_at_least(
            cs.as_slice(),
            MAX_CONTENT_LENGTH + 1,
        )
    }

    /// How many of the salience keywords occur in the lowercase form of
    /// `content`; each keyword counts once.
    pub fn salience_keyword_hits(&self, content: &str) -> (r: usize)
        ensures
            r as nat == count_subs(lowercase(content@), salience_keywords()),
    {
        let lower_s = to_lowercase(content);
        let lower = chars_of(lower_s.as_str());
        let keywords = vec![
            "important", "critical", "bug", "fix", "error", "breakthrough",
            "discovery", "remember", "never", "always", "warning", "danger",
            "lesson", "learned", "insight",
        ];
        assert(str_views(keywords@) =~= salience_keywords());
        count_contained(lower.as_slice(), keywords.as_slice())
    }

    /// The initial layer of a memory of `memory_type`, where
    /// `reaches_working` tells whether its salience is at least the working
    /// threshold.
    pub fn initial_layer(&self, memory_type: MemoryType, reaches_working: bool) -> (r: MemoryLayer)
        ensures
            r == layer_spec(memory_type, reaches_working),
    {
        match memory_type {
            MemoryType::Procedural | MemoryType::Schematic => MemoryLayer::Working,
            _ => if reaches_working {
                MemoryLayer::Working
            } else {
                MemoryLayer::Sensory
            },
        }
    }
}

} // verus!
