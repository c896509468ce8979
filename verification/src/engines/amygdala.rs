//! AffectEngine (amygdala): emotional markers in text.
use vstd::prelude::*;
use crate::text::{any_sub, chars_of, contains, count_contained, count_subs, has_sub, lowercase, str_views, to_lowercase};
use crate::types::EmotionalValence;

verus! {

pub open spec fn positive_markers() -> Seq<Seq<char>> {
    seq![
        "amazing"@, "breakthrough"@, "excellent"@, "great"@, "perfect"@,
        "solved"@, "success"@, "works"@, "love"@, "beautiful"@, "happy"@,
        "excited"@, "wonderful"@, "fantastic"@,
    ]
}

pub open spec fn negative_markers() -> Seq<Seq<char>> {
    seq![
        "bug"@, "broken"@, "crash"@, "error"@, "fail"@, "frustrat"@,
        "terrible"@, "wrong"@, "hate"@, "awful"@, "disappoint"@, "stuck"@,
        "confused"@, "impossible"@, "nightmare"@,
    ]
}

/// The high-arousal word markers (the marker `!` is matched separately, on
/// the text as given, not lower-cased).
pub open spec fn arousal_word_markers() -> Seq<Seq<char>> {
    seq![
        "urgent"@, "critical"@, "panic"@, "incredible"@, "shocking"@,
        "breakthrough"@, "eureka"@, "finally"@, "nightmare"@, "disaster"@,
    ]
}

/// Marker counts of a text: how many positive and negative markers occur in
/// its lowercase form, and how many high-arousal markers occur (`!` in the
/// text itself, the words in its lowercase form).
pub open spec fn emotion_counts_spec(content: Seq<char>) -> (nat, nat, nat) {
    let lower = lowercase(content);
    (
        count_subs(lower, positive_markers()),
        count_subs(lower, negative_markers()),
        (if has_sub(content, seq!['!']) {
            1nat
        } else {
            0nat
        }) + count_subs(lower, arousal_word_markers()),
    )
}

/// Valence from the positive and negative marker counts.
pub open spec fn valence_spec(pos: nat, neg: nat) -> EmotionalValence {
    if pos > 0 && neg > 0 {
        EmotionalValence::Mixed
    } else if pos > neg {
        EmotionalValence::Positive
    } else if neg > pos {
        EmotionalValence::Negative
    } else {
        EmotionalValence::Neutral
    }
}


/// A family of markers occurring in a text counts at least once.
proof fn lemma_hit_counts(s: Seq<char>, pats: Seq<Seq<char>>)
    ensures
        any_sub(s, pats) <==> count_subs(s, pats) > 0,
    decreases pats.len(),
{
    if pats.len() > 0 {
        lemma_hit_counts(s, pats.drop_last());
        if any_sub(s, pats) {
            let k = choose|k: int| 0 <= k < pats.len() && has_sub(s, #[trigger] pats[k]);
            if k < pats.len() - 1 {
                assert(pats.drop_last()[k] == pats[k]);
            }
        }
        if any_sub(s, pats.drop_last()) {
            let k = choose|k: int| 0 <= k < pats.drop_last().len() && has_sub(s, #[trigger] pats.drop_last()[k]);
            assert(pats[k] == pats.drop_last()[k]);
        }
        if has_sub(s, pats.last()) {
            assert(pats[pats.len() - 1] == pats.last());
        }
    }
}

/// Valence from marker counts: both kinds present is mixed, however many
/// of each; only positive markers is positive; only negative ones is
/// negative; none is neutral.
pub proof fn law_valence_by_kinds_present(pos: nat, neg: nat)
    ensures
        pos > 0 && neg > 0 ==> valence_spec(pos, neg) == EmotionalValence::Mixed,
        pos > 0 && neg == 0 ==> valence_spec(pos, neg) == EmotionalValence::Positive,
        pos == 0 && neg > 0 ==> valence_spec(pos, neg) == EmotionalValence::Negative,
        pos == 0 && neg == 0 ==> valence_spec(pos, neg) == EmotionalValence::Neutral,
{
}

/// A text holding both a positive and a negative marker (in its lowercase
/// form) is mixed, whichever kind occurs more; a text with markers of one
/// kind only takes that kind's valence; a text with none is neutral.
pub proof fn law_text_valence(content: Seq<char>)
    ensures
        any_sub(lowercase(content), positive_markers()) && any_sub(lowercase(content), negative_markers())
            ==> valence_spec(emotion_counts_spec(content).0, emotion_counts_spec(content).1)
            == EmotionalValence::Mixed,
        any_sub(lowercase(content), positive_markers()) && !any_sub(lowercase(content), negative_markers())
            ==> valence_spec(emotion_counts_spec(content).0, emotion_counts_spec(content).1)
            == EmotionalValence::Positive,
        !any_sub(lowercase(content), positive_markers()) && any_sub(lowercase(content), negative_markers())
            ==> valence_spec(emotion_counts_spec(content).0, emotion_counts_spec(content).1)
            == EmotionalValence::Negative,
        !any_sub(lowercase(content), positive_markers()) && !any_sub(lowercase(content), negative_markers())
            ==> valence_spec(emotion_counts_spec(content).0, emotion_counts_spec(content).1)
            == EmotionalValence::Neutral,
{
    lemma_hit_counts(lowercase(content), positive_markers());
    lemma_hit_counts(lowercase(content), negative_markers());
    law_valence_by_kinds_present(emotion_counts_spec(content).0, emotion_counts_spec(content).1);
}

/// AffectEngine — amygdala.
pub struct AffectEngine;

impl Default for AffectEngine {
    fn default() -> (r: Self)
        ensures
            r == AffectEngine,
    {
        AffectEngine::new()
    }
}

impl AffectEngine {
    pub fn new() -> (r: Self)
        ensures
            r == AffectEngine,
    {
        AffectEngine
    }

    /// Count the positive, negative and high-arousal markers of `content`.
    pub fn emotion_counts(&self, content: &str) -> (r: (usize, usize, usize))
        ensures
            r.0 as nat == emotion_counts_spec(content@).0,
            r.1 as nat == emotion_counts_spec(content@).1,
            r.2 as nat == emotion_counts_spec(content@).2,
    {
        let lower_s = to_lowercase(content);
        let lower = chars_of(lower_s.as_str());
        let raw = chars_of(content);
        let positive = vec![
            "amazing", "breakthrough", "excellent", "great", "perfect",
            "solved", "success", "works", "love", "beautiful", "happy",
            "excited", "wonderful", "fantastic",
        ];
        assert(str_views(positive@) =~= positive_markers());
        let negative = vec![
            "bug", "broken", "crash", "error", "fail", "frustrat",
            "terrible", "wrong", "hate", "awful", "disappoint", "stuck",
            "confused", "impossible", "nightmare",
        ];
        assert(str_views(negative@) =~= negative_markers());
        let arousal = vec![
            "urgent", "critical", "panic", "incredible", "shocking",
            "breakthrough", "eureka", "finally", "nightmare", "disaster",
        ];
        assert(str_views(arousal@) =~= arousal_word_markers());
        let pos = count_contained(lower.as_slice(), positive.as_slice());
        let neg = count_contained(lower.as_slice(), negative.as_slice());
        let bang = vec!['!'];
        let words = count_contained(lower.as_slice(), arousal.as_slice());
        let excl: usize = if contains(raw.as_slice(), bang.as_slice()) {
            1
        } else {
            0
        };
        assert(bang@ =~= seq!['!']);
        (pos, neg, excl + words)
    }

    /// Emotional valence of marker counts: mixed when both kinds occur, else
    /// the larger kind, neutral when neither.
    pub fn valence_of(&self, pos: usize, neg: usize) -> (r: EmotionalValence)
        ensures
            r == valence_spec(pos as nat, neg as nat),
    {
        if pos > 0 && neg > 0 {
            EmotionalValence::Mixed
        } else if pos > neg {
            EmotionalValence::Positive
        } else if neg > pos {
            EmotionalValence::Negative
        } else {
            EmotionalValence::Neutral
        }
    }

    /// The emotional valence of a text.
    pub fn analyze_valence(&self, content: &str) -> (r: EmotionalValence)
        ensures
            r == valence_spec(emotion_counts_spec(content@).0, emotion_counts_spec(content@).1),
    {
        let (p, n, _a) = self.emotion_counts(content);
        self.valence_of(p, n)
    }
}

} // verus!
