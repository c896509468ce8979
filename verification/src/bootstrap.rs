//! The cognitive bootstrap: the live memories an agent is primed with when a
//! session starts — open intentions, where it left off, distilled skills,
//! relevant procedures and other relevant memories — packed, in that order of
//! priority, into a token budget (a token being about four bytes).
use vstd::prelude::*;
use vstd::string::StrSliceExecFns;
use crate::mcp::truncate_block;
use crate::numtext::nat_decimal;
use crate::text::{chars_of, join, join_chars, push_all, string_of, string_views, utf8_len_below, views};
use crate::types::MemoryType;

verus! {

/// A recalled memory, as the bootstrap reads it.
pub struct Recalled {
    pub content: String,
    pub memory_type: MemoryType,
    pub tags: Vec<String>,
}

/// An open intention; `salience_text` is its salience as the block shows it.
pub struct Intention {
    pub salience_text: String,
    pub content: String,
    pub tags: Vec<String>,
}

/// The token budget of a bootstrap mode: `minimal`, `full`, or (any other
/// name) standard.
pub open spec fn mode_cap(mode: Seq<char>) -> nat {
    if mode == "minimal"@ {
        1000
    } else if mode == "full"@ {
        4500
    } else {
        2000
    }
}

/// The budget a call gets: its mode's, tightened by `max_tokens`.
pub open spec fn budget_spec(mode: Seq<char>, max_tokens: nat) -> nat {
    if max_tokens < mode_cap(mode) {
        max_tokens
    } else {
        mode_cap(mode)
    }
}

/// The token budget of a bootstrap call.
pub fn bootstrap_budget(mode: &str, max_tokens: usize) -> (r: usize)
    ensures
        r == budget_spec(mode@, max_tokens as nat),
        r <= 4500,
{
    let m = chars_of(mode);
    let cap: usize = if crate::text::eq_lit(m.as_slice(), "minimal") {
        1000
    } else if crate::text::eq_lit(m.as_slice(), "full") {
        4500
    } else {
        2000
    };
    if max_tokens < cap {
        max_tokens
    } else {
        cap
    }
}

/// Where a recalled memory may be shown.
pub enum Shelf {
    /// A session note: where the agent left off.
    Session,
    /// A distilled skill.
    Skill,
    /// A procedure that is a niche champion.
    ChampionProcedure,
    /// Any other procedure.
    PlainProcedure,
    /// Neither a procedure, a session note nor a skill.
    Other,
}

/// `r` carries the tag `t`.
pub open spec fn tagged(tags: Seq<String>, t: Seq<char>) -> bool {
    string_views(tags).contains(t)
}

/// Whether a recalled memory belongs on a shelf. A procedural session note
/// is shown both as a session and as a procedure.
pub open spec fn on_shelf(r: Recalled, s: Shelf) -> bool {
    let session = tagged(r.tags@, "session_note"@);
    let skill = r.memory_type == MemoryType::Schematic && tagged(r.tags@, "skill"@);
    let procedure = r.memory_type == MemoryType::Procedural;
    match s {
        Shelf::Session => session,
        Shelf::Skill => skill,
        Shelf::ChampionProcedure => procedure && tagged(r.tags@, "skill_champion"@),
        Shelf::PlainProcedure => procedure && !tagged(r.tags@, "skill_champion"@),
        Shelf::Other => !procedure && !session && !skill,
    }
}

/// The memories of `hits` on a shelf, in recall order.
pub open spec fn shelved(hits: Seq<Recalled>, s: Shelf) -> Seq<Recalled>
    decreases hits.len(),
{
    if hits.len() == 0 {
        Seq::empty()
    } else if on_shelf(hits.last(), s) {
        shelved(hits.drop_last(), s).push(hits.last())
    } else {
        shelved(hits.drop_last(), s)
    }
}

/// The entries of `hits` at the positions `idx`.
pub open spec fn pick(hits: Seq<Recalled>, idx: Seq<usize>) -> Seq<Recalled> {
    Seq::new(idx.len(), |k: int| hits[idx[k] as int])
}

/// `s` cut to `width` characters, with an ellipsis when something was cut.
pub open spec fn clipped(s: Seq<char>, width: nat) -> Seq<char> {
    if width < s.len() {
        s.subrange(0, width as int).push('…')
    } else {
        s
    }
}

/// The smaller of two counts.
pub open spec fn at_most(n: nat, cap: nat) -> nat {
    if n < cap {
        n
    } else {
        cap
    }
}

/// The first `count` items as `- ` lines, each clipped to `width`.
pub open spec fn item_lines(items: Seq<Recalled>, count: nat, width: nat) -> Seq<Seq<char>> {
    Seq::new(at_most(items.len(), count), |i: int| "- "@ + clipped(items[i].content@, width))
}

/// The intentions not tagged `status:resolved`, in order.
pub open spec fn open_intentions(ints: Seq<Intention>) -> Seq<Intention>
    decreases ints.len(),
{
    if ints.len() == 0 {
        Seq::empty()
    } else if tagged(ints.last().tags@, "status:resolved"@) {
        open_intentions(ints.drop_last())
    } else {
        open_intentions(ints.drop_last()).push(ints.last())
    }
}

/// The first eight open intentions as lines.
pub open spec fn intention_lines(ints: Seq<Intention>) -> Seq<Seq<char>> {
    Seq::new(
        at_most(ints.len(), 8),
        |i: int| "- (salience "@ + ints[i].salience_text@ + ") "@ + clipped(ints[i].content@, 240),
    )
}

/// A section labelled `stem(n)` for its `n` lines, under `heading`; none
/// when there are no lines.
pub open spec fn optional_section(lines: Seq<Seq<char>>, stem: Seq<char>, heading: Seq<char>) -> Seq<
    (Seq<char>, Seq<char>),
> {
    if lines.len() == 0 {
        Seq::empty()
    } else {
        seq![(stem + "("@ + nat_decimal(lines.len()) + ")"@, heading + join(lines, "\n"@))]
    }
}

/// The procedures of `hits`, niche champions first, recall order kept
/// otherwise.
pub open spec fn procedures_of(hits: Seq<Recalled>) -> Seq<Recalled> {
    shelved(hits, Shelf::ChampionProcedure) + shelved(hits, Shelf::PlainProcedure)
}

/// The sections a bootstrap may hold, in priority order.
pub open spec fn sections_spec(ints: Seq<Intention>, hits: Seq<Recalled>) -> Seq<(Seq<char>, Seq<char>)> {
    let il = intention_lines(open_intentions(ints));
    optional_section(il, "intentions"@, "## Open intentions ("@ + nat_decimal(il.len()) + ")\n"@)
        + optional_section(item_lines(shelved(hits, Shelf::Session), 3, 400), "sessions"@, "## Where you left off\n"@)
        + optional_section(
        item_lines(shelved(hits, Shelf::Skill), 3, 300),
        "skills"@,
        "## Skills (distilled competence)\n"@,
    ) + optional_section(item_lines(procedures_of(hits), 3, 300), "procedures"@, "## Relevant procedures\n"@)
        + optional_section(item_lines(shelved(hits, Shelf::Other), 5, 240), "memories"@, "## Relevant memories\n"@)
}

/// The tokens a block costs: its UTF-8 bytes over four.
pub open spec fn cost(block: Seq<char>) -> nat {
    vstd::utf8::encode_utf8(block).len() / 4
}

/// Sections taken in order while they fit the budget (a section that does
/// not fit is passed over, and later ones may still fit): the labels and
/// blocks taken, and the tokens spent.
pub open spec fn pack(cands: Seq<(Seq<char>, Seq<char>)>, budget: nat) -> (Seq<Seq<char>>, Seq<Seq<char>>, nat)
    decreases cands.len(),
{
    if cands.len() == 0 {
        (Seq::empty(), Seq::empty(), 0)
    } else {
        let (labels, blocks, spent) = pack(cands.drop_last(), budget);
        let (label, block) = cands.last();
        if spent + cost(block) <= budget {
            (labels.push(label), blocks.push(block), spent + cost(block))
        } else {
            (labels, blocks, spent)
        }
    }
}

/// The first line of the assembled block.
pub open spec fn header_spec(mode: Seq<char>, spent: nat, budget: nat, labels: Seq<Seq<char>>) -> Seq<char> {
    "# Cognitive Bootstrap — mode: "@ + mode + " | ~"@ + nat_decimal(spent) + "/"@ + nat_decimal(budget)
        + " tokens | sections: "@ + if labels.len() == 0 {
        "none"@
    } else {
        join(labels, ", "@)
    }
}

/// What the block says when nothing was loaded.
pub const EMPTY_BOOTSTRAP_NOTE: &'static str = "\n\n(No dynamic priming yet — empty brain or no query match. Static soul kernel still applies.)";

/// The assembled block: the header, then the blocks taken, blank-line
/// separated.
pub open spec fn assembled_spec(header: Seq<char>, blocks: Seq<Seq<char>>) -> Seq<char> {
    if blocks.len() == 0 {
        header + EMPTY_BOOTSTRAP_NOTE@
    } else {
        header + "\n\n"@ + join(blocks, "\n\n"@)
    }
}

/// A bootstrap as the tool returns it.
pub struct Bootstrap {
    pub mode: String,
    pub max_tokens: usize,
    pub total_tokens: usize,
    pub sections_loaded: Vec<String>,
    pub query: String,
    pub assembled_block: String,
}

/// The recalled memories a bootstrap uses: none without a query.
pub open spec fn hits_used(query: Seq<char>, hits: Seq<Recalled>) -> Seq<Recalled> {
    if query.len() == 0 {
        Seq::empty()
    } else {
        hits
    }
}

fn tagged_exec(tags: &Vec<String>, t: &str) -> (r: bool)
    ensures
        r == tagged(tags@, t@),
{
    let mut i: usize = 0;
    while i < tags.len()
        invariant
            i <= tags@.len(),
            forall|j: int| 0 <= j < i ==> string_views(tags@)[j] != t@,
        decreases tags@.len() - i,
    {
        if crate::text::str_eq(tags[i].as_str(), t) {
            assert(string_views(tags@)[i as int] == t@);
            return true;
        }
        i = i + 1;
    }
    false
}

fn on_shelf_exec(r: &Recalled, s: &Shelf) -> (b: bool)
    ensures
        b == on_shelf(*r, *s),
{
    proof {
        reveal_strlit("session_note");
        reveal_strlit("skill");
        reveal_strlit("skill_champion");
    }
    let session = tagged_exec(&r.tags, "session_note");
    let skill = r.memory_type == MemoryType::Schematic && tagged_exec(&r.tags, "skill");
    let procedure = r.memory_type == MemoryType::Procedural;
    match s {
        Shelf::Session => session,
        Shelf::Skill => skill,
        Shelf::ChampionProcedure => procedure && tagged_exec(&r.tags, "skill_champion"),
        Shelf::PlainProcedure => procedure && !tagged_exec(&r.tags, "skill_champion"),
        Shelf::Other => !procedure && !session && !skill,
    }
}

/// The positions of the memories on a shelf.
fn shelf_positions(hits: &Vec<Recalled>, s: Shelf) -> (idx: Vec<usize>)
    ensures
        forall|k: int| 0 <= k < idx@.len() ==> #[trigger] idx@[k] < hits@.len(),
        pick(hits@, idx@) == shelved(hits@, s),
{
    let mut idx: Vec<usize> = Vec::new();
    let mut i: usize = 0;
    while i < hits.len()
        invariant
            i <= hits@.len(),
            forall|k: int| 0 <= k < idx@.len() ==> #[trigger] idx@[k] < i,
            pick(hits@, idx@) == shelved(hits@.subrange(0, i as int), s),
        decreases hits@.len() - i,
    {
        let ghost before = idx@;
        let ghost sub = hits@.subrange(0, i + 1);
        assert(sub.drop_last() =~= hits@.subrange(0, i as int));
        assert(sub.last() == hits@[i as int]);
        if on_shelf_exec(&hits[i], &s) {
            idx.push(i);
            assert(pick(hits@, idx@) =~= pick(hits@, before).push(hits@[i as int]));
        }
        i = i + 1;
    }
    assert(hits@.subrange(0, hits@.len() as int) =~= hits@);
    idx
}

/// The positions of the open intentions.
fn open_positions(ints: &Vec<Intention>) -> (idx: Vec<usize>)
    ensures
        forall|k: int| 0 <= k < idx@.len() ==> #[trigger] idx@[k] < ints@.len(),
        Seq::new(idx@.len(), |k: int| ints@[idx@[k] as int]) == open_intentions(ints@),
{
    proof {
        reveal_strlit("status:resolved");
    }
    let mut idx: Vec<usize> = Vec::new();
    let mut i: usize = 0;
    while i < ints.len()
        invariant
            i <= ints@.len(),
            forall|k: int| 0 <= k < idx@.len() ==> #[trigger] idx@[k] < i,
            Seq::new(idx@.len(), |k: int| ints@[idx@[k] as int]) == open_intentions(ints@.subrange(0, i as int)),
        decreases ints@.len() - i,
    {
        let ghost before = idx@;
        let ghost sub = ints@.subrange(0, i + 1);
        assert(sub.drop_last() =~= ints@.subrange(0, i as int));
        assert(sub.last() == ints@[i as int]);
        if !tagged_exec(&ints[i].tags, "status:resolved") {
            idx.push(i);
            assert(Seq::new(idx@.len(), |k: int| ints@[idx@[k] as int]) =~= Seq::new(
                before.len(),
                |k: int| ints@[before[k] as int],
            ).push(ints@[i as int]));
        }
        i = i + 1;
    }
    assert(ints@.subrange(0, ints@.len() as int) =~= ints@);
    idx
}

/// The item lines of the memories at `idx`.
fn item_lines_of(hits: &Vec<Recalled>, idx: &Vec<usize>, count: usize, width: usize) -> (r: Vec<Vec<char>>)
    requires
        forall|k: int| 0 <= k < idx@.len() ==> #[trigger] idx@[k] < hits@.len(),
    ensures
        views(r@) == item_lines(pick(hits@, idx@), count as nat, width as nat),
{
    let n = if idx.len() < count {
        idx.len()
    } else {
        count
    };
    let ghost items = pick(hits@, idx@);
    let mut out: Vec<Vec<char>> = Vec::new();
    let mut i: usize = 0;
    while i < n
        invariant
            n == at_most(idx@.len() as nat, count as nat),
            n <= idx@.len(),
            items == pick(hits@, idx@),
            forall|k: int| 0 <= k < idx@.len() ==> #[trigger] idx@[k] < hits@.len(),
            i <= n,
            out@.len() == i,
            forall|j: int| 0 <= j < i ==> (#[trigger] out@[j])@ == "- "@ + clipped(items[j].content@, width as nat),
        decreases n - i,
    {
        let mut line = chars_of("- ");
        let c = truncate_block(hits[idx[i]].content.as_str(), width);
        let cc = chars_of(c.as_str());
        push_all(&mut line, cc.as_slice());
        assert(items[i as int] == hits@[idx@[i as int] as int]);
        out.push(line);
        i = i + 1;
    }
    assert(views(out@) =~= item_lines(items, count as nat, width as nat));
    out
}

/// The lines of the first eight open intentions.
fn intention_lines_of(ints: &Vec<Intention>, idx: &Vec<usize>) -> (r: Vec<Vec<char>>)
    requires
        forall|k: int| 0 <= k < idx@.len() ==> #[trigger] idx@[k] < ints@.len(),
    ensures
        views(r@) == intention_lines(Seq::new(idx@.len(), |k: int| ints@[idx@[k] as int])),
{
    let n = if idx.len() < 8 {
        idx.len()
    } else {
        8
    };
    let ghost items = Seq::new(idx@.len(), |k: int| ints@[idx@[k] as int]);
    let mut out: Vec<Vec<char>> = Vec::new();
    let mut i: usize = 0;
    while i < n
        invariant
            n == at_most(idx@.len() as nat, 8),
            n <= idx@.len(),
            items == Seq::new(idx@.len(), |k: int| ints@[idx@[k] as int]),
            forall|k: int| 0 <= k < idx@.len() ==> #[trigger] idx@[k] < ints@.len(),
            i <= n,
            out@.len() == i,
            forall|j: int|
                0 <= j < i ==> (#[trigger] out@[j])@ == "- (salience "@ + items[j].salience_text@ + ") "@
                    + clipped(items[j].content@, 240),
        decreases n - i,
    {
        let it = &ints[idx[i]];
        let mut line = chars_of("- (salience ");
        let s = chars_of(it.salience_text.as_str());
        push_all(&mut line, s.as_slice());
        let close = chars_of(") ");
        push_all(&mut line, close.as_slice());
        let c = truncate_block(it.content.as_str(), 240);
        let cc = chars_of(c.as_str());
        push_all(&mut line, cc.as_slice());
        out.push(line);
        i = i + 1;
    }
    assert(views(out@) =~= intention_lines(items));
    out
}

/// The section for `lines`, labelled `stem(n)` under `heading`, if any.
fn push_section(
    cands: &mut Vec<(Vec<char>, Vec<char>)>,
    lines: &Vec<Vec<char>>,
    stem: &str,
    heading: &Vec<char>,
)
    ensures
        section_views(final(cands)@) == section_views(old(cands)@) + optional_section(views(lines@), stem@, heading@),
{
    if lines.len() == 0 {
        assert(section_views(cands@) =~= section_views(cands@) + optional_section(views(lines@), stem@, heading@));
        return;
    }
    let mut label = chars_of(stem);
    label.push('(');
    let num = crate::numtext::format_u64(lines.len() as u64);
    push_all(&mut label, num.as_slice());
    label.push(')');
    let mut block = heading.clone();
    let nl = chars_of("\n");
    let body = join_chars(lines, nl.as_slice());
    push_all(&mut block, body.as_slice());
    proof {
        reveal_strlit("(");
        reveal_strlit(")");
        assert(label@ =~= stem@ + "("@ + nat_decimal(lines@.len() as nat) + ")"@);
    }
    let ghost before = section_views(cands@);
    cands.push((label, block));
    assert(section_views(cands@) =~= before + optional_section(views(lines@), stem@, heading@));
}

/// Sections as plain values.
pub open spec fn section_views(v: Seq<(Vec<char>, Vec<char>)>) -> Seq<(Seq<char>, Seq<char>)> {
    v.map_values(|p: (Vec<char>, Vec<char>)| (p.0@, p.1@))
}

/// The sections, in priority order.
fn sections_of(ints: &Vec<Intention>, hits: &Vec<Recalled>) -> (r: Vec<(Vec<char>, Vec<char>)>)
    ensures
        section_views(r@) == sections_spec(ints@, hits@),
{
    let mut cands: Vec<(Vec<char>, Vec<char>)> = Vec::new();
    let oi = open_positions(ints);
    let il = intention_lines_of(ints, &oi);
    let mut h = chars_of("## Open intentions (");
    let num = crate::numtext::format_u64(il.len() as u64);
    push_all(&mut h, num.as_slice());
    let tail = chars_of(")\n");
    push_all(&mut h, tail.as_slice());
    push_section(&mut cands, &il, "intentions", &h);
    let si = shelf_positions(hits, Shelf::Session);
    let sl = item_lines_of(hits, &si, 3, 400);
    push_section(&mut cands, &sl, "sessions", &chars_of("## Where you left off\n"));
    let ki = shelf_positions(hits, Shelf::Skill);
    let kl = item_lines_of(hits, &ki, 3, 300);
    push_section(&mut cands, &kl, "skills", &chars_of("## Skills (distilled competence)\n"));
    let mut pi = shelf_positions(hits, Shelf::ChampionProcedure);
    let mut plain = shelf_positions(hits, Shelf::PlainProcedure);
    let ghost pc = pi@;
    let ghost pp = plain@;
    pi.append(&mut plain);
    assert(pick(hits@, pi@) =~= pick(hits@, pc) + pick(hits@, pp));
    let pl = item_lines_of(hits, &pi, 3, 300);
    push_section(&mut cands, &pl, "procedures", &chars_of("## Relevant procedures\n"));
    let oth = shelf_positions(hits, Shelf::Other);
    let ml = item_lines_of(hits, &oth, 5, 240);
    push_section(&mut cands, &ml, "memories", &chars_of("## Relevant memories\n"));
    assert(section_views(cands@) =~= sections_spec(ints@, hits@));
    cands
}

/// Assemble the bootstrap for a call with `query`, `mode` and `max_tokens`,
/// from the open intentions (highest salience first, those below the
/// salience floor already left out) and the memories recalled for the
/// query (in recall order; unused when the query is empty).
pub fn assemble_bootstrap(
    query: &str,
    mode: &str,
    max_tokens: usize,
    intentions: &Vec<Intention>,
    hits: &Vec<Recalled>,
) -> (r: Bootstrap)
    ensures
        r.mode@ == mode@,
        r.query@ == query@,
        r.max_tokens == budget_spec(mode@, max_tokens as nat),
        ({
            let (labels, blocks, spent) = pack(
                sections_spec(intentions@, hits_used(query@, hits@)),
                budget_spec(mode@, max_tokens as nat),
            );
            &&& string_views(r.sections_loaded@) == labels
            &&& r.total_tokens == spent
            &&& r.assembled_block@ == assembled_spec(
                header_spec(mode@, spent, budget_spec(mode@, max_tokens as nat), labels),
                blocks,
            )
        }),
{
    let budget = bootstrap_budget(mode, max_tokens);
    let none: Vec<Recalled> = Vec::new();
    let used: &Vec<Recalled> = if query.unicode_len() == 0 {
        &none
    } else {
        hits
    };
    assert(used@ == hits_used(query@, hits@));
    let cands = sections_of(intentions, used);
    let ghost cv = section_views(cands@);
    let mut labels: Vec<String> = Vec::new();
    let mut blocks: Vec<Vec<char>> = Vec::new();
    let mut spent: usize = 0;
    let mut k: usize = 0;
    assert(cv.subrange(0, 0) =~= Seq::<(Seq<char>, Seq<char>)>::empty());
    while k < cands.len()
        invariant
            k <= cands@.len(),
            cv == section_views(cands@),
            budget <= 4500,
            spent <= budget,
            pack(cv.subrange(0, k as int), budget as nat) == (string_views(labels@), views(blocks@), spent as nat),
        decreases cands@.len() - k,
    {
        let ghost sub = cv.subrange(0, k + 1);
        assert(sub.drop_last() =~= cv.subrange(0, k as int));
        assert(sub.last() == (cands@[k as int].0@, cands@[k as int].1@));
        let rem = budget - spent;
        match utf8_len_below(cands[k].1.as_slice(), 4 * rem + 4) {
            Some(len) => {
                let c = len / 4;
                let ghost lb = string_views(labels@);
                let ghost bb = views(blocks@);
                labels.push(string_of(cands[k].0.as_slice()));
                blocks.push(cands[k].1.clone());
                assert(string_views(labels@) =~= lb.push(cands@[k as int].0@));
                assert(views(blocks@) =~= bb.push(cands@[k as int].1@));
                spent = spent + c;
            },
            None => {},
        }
        k = k + 1;
    }
    assert(cv.subrange(0, cands@.len() as int) =~= cv);
    // The header.
    let mut head = chars_of("# Cognitive Bootstrap — mode: ");
    push_all(&mut head, chars_of(mode).as_slice());
    push_all(&mut head, chars_of(" | ~").as_slice());
    push_all(&mut head, crate::numtext::format_u64(spent as u64).as_slice());
    push_all(&mut head, chars_of("/").as_slice());
    push_all(&mut head, crate::numtext::format_u64(budget as u64).as_slice());
    push_all(&mut head, chars_of(" tokens | sections: ").as_slice());
    if labels.len() == 0 {
        push_all(&mut head, chars_of("none").as_slice());
    } else {
        let mut lc: Vec<Vec<char>> = Vec::new();
        let mut j: usize = 0;
        while j < labels.len()
            invariant
                j <= labels@.len(),
                views(lc@) == string_views(labels@).subrange(0, j as int),
            decreases labels@.len() - j,
        {
            let ghost before = views(lc@);
            lc.push(chars_of(labels[j].as_str()));
            assert(views(lc@) =~= before.push(labels@[j as int]@));
            j = j + 1;
            assert(views(lc@) =~= string_views(labels@).subrange(0, j as int));
        }
        assert(string_views(labels@).subrange(0, labels@.len() as int) =~= string_views(labels@));
        let sep = chars_of(", ");
        let joined = join_chars(&lc, sep.as_slice());
        push_all(&mut head, joined.as_slice());
    }
    let ghost hv = head@;
    assert(hv =~= header_spec(mode@, spent as nat, budget as nat, string_views(labels@)));
    let mut block = head;
    if blocks.len() == 0 {
        push_all(&mut block, chars_of(EMPTY_BOOTSTRAP_NOTE).as_slice());
    } else {
        push_all(&mut block, chars_of("\n\n").as_slice());
        let sep = chars_of("\n\n");
        let joined = join_chars(&blocks, sep.as_slice());
        push_all(&mut block, joined.as_slice());
    }
    assert(block@ =~= assembled_spec(hv, views(blocks@)));
    Bootstrap {
        mode: string_of(chars_of(mode).as_slice()),
        max_tokens: budget,
        total_tokens: spent,
        sections_loaded: labels,
        query: string_of(chars_of(query).as_slice()),
        assembled_block: string_of(block.as_slice()),
    }
}

/// A bootstrap never spends more tokens than its budget, and it loads one
/// block per label.
pub proof fn law_bootstrap_within_budget(cands: Seq<(Seq<char>, Seq<char>)>, budget: nat)
    ensures
        pack(cands, budget).2 <= budget,
        pack(cands, budget).0.len() == pack(cands, budget).1.len(),
        pack(cands, budget).0.len() <= cands.len(),
    decreases cands.len(),
{
    if cands.len() > 0 {
        law_bootstrap_within_budget(cands.drop_last(), budget);
    }
}

} // verus!
