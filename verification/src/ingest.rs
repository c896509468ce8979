//! File ingestion rules: routing a file to a handler by its extension,
//! splitting text into memory-sized chunks, and the small parsers for
//! markdown frontmatter and sections, CSV delimiters and HTML text.
use vstd::prelude::*;
use crate::types::MemoryType;
use crate::text::{
    ascii_lower_seq, ascii_lowercase, chars_of, count_char, count_of, eq_lit, join, join_chars, lemma_words_of_space_join,
    sum_words, word_count, words, in_list, is_ascii_ws, lines, push_all,
    slice_vec, split_char, split_lines, split_on, str_views, string_views, to_strings, trim,
    trim_range, trim_vec, views, lowercase, to_lowercase, is_ascii_alnum, split_once, trim_set, trim_set_vec, position_of, string_of,
    trim_start, trim_start_index, starts_with, occurs_ci_at, matches_ci_at, find_ci, find_ci_from,
    find_char_from, find_char_at_or_after, replace_all, replace_chars, has_prefix, seq_equal, trim_end, trim_end_index,
    is_ws, concat, ascii_lower,
};

verus! {

/// What the router decided a file is.
#[derive(Debug, Clone, Copy, PartialEq, Eq, Structural)]
pub enum FileKind {
    Text,
    Markdown,
    Json,
    Csv,
    Html,
    Pdf,
    Image,
}

/// Extensions handled as plain text (source code, configuration, logs).
pub open spec fn text_extensions() -> Seq<Seq<char>> {
    seq![
        "txt"@, "py"@, "js"@, "ts"@, "rs"@, "go"@, "java"@, "rb"@, "sh"@,
        "c"@, "cpp"@, "h"@, "hpp"@, "cs"@, "swift"@, "kt"@, "scala"@,
        "r"@, "m"@, "mm"@, "sql"@, "yaml"@, "yml"@, "xml"@,
        "toml"@, "ini"@, "cfg"@, "conf"@, "properties"@, "rst"@, "log"@,
    ]
}

/// Extensions handled as images.
pub open spec fn image_extensions() -> Seq<Seq<char>> {
    seq!["png"@, "jpg"@, "jpeg"@, "gif"@, "webp"@]
}

/// The last component of a list of `/`-separated pieces that names
/// something: empty pieces and `.` are not components.
pub open spec fn last_component(pieces: Seq<Seq<char>>) -> Option<Seq<char>>
    decreases pieces.len(),
{
    if pieces.len() == 0 {
        None
    } else if pieces.last().len() == 0 || pieces.last() == "."@ {
        last_component(pieces.drop_last())
    } else {
        Some(pieces.last())
    }
}

/// `Path::file_name` of a `/`-separated path: its last normal component;
/// none when the path ends in `..` or has no component.
pub open spec fn file_name(path: Seq<char>) -> Option<Seq<char>> {
    match last_component(split_on(path, '/')) {
        Some(c) => if c == ".."@ {
            None
        } else {
            Some(c)
        },
        None => None,
    }
}

/// `Path::extension`: what follows the last `.` of the file name, unless
/// there is no `.` or the only `.` begins the name.
pub open spec fn extension(path: Seq<char>) -> Option<Seq<char>> {
    match file_name(path) {
        Some(f) => {
            let parts = split_on(f, '.');
            if parts.len() < 2 || (parts.len() == 2 && parts[0].len() == 0) {
                None
            } else {
                Some(parts.last())
            }
        },
        None => None,
    }
}

/// The handler for a lower-cased extension.
pub open spec fn kind_of_extension(e: Seq<char>) -> Option<FileKind> {
    if e == "md"@ || e == "markdown"@ || e == "mdown"@ || e == "mkd"@ {
        Some(FileKind::Markdown)
    } else if e == "json"@ {
        Some(FileKind::Json)
    } else if e == "csv"@ {
        Some(FileKind::Csv)
    } else if e == "html"@ || e == "htm"@ {
        Some(FileKind::Html)
    } else if e == "pdf"@ {
        Some(FileKind::Pdf)
    } else if image_extensions().contains(e) {
        Some(FileKind::Image)
    } else if text_extensions().contains(e) {
        Some(FileKind::Text)
    } else {
        None
    }
}

/// The handler for a path: by its extension, ASCII case ignored.
pub open spec fn classify_spec(path: Seq<char>) -> Option<FileKind> {
    match extension(path) {
        Some(e) => kind_of_extension(ascii_lower_seq(e)),
        None => None,
    }
}


/// A path whose extension reads `htm` or `html` (ASCII case ignored) goes
/// to the HTML handler; `json`, `csv` and `pdf` go to theirs, and `md`,
/// `markdown`, `mdown` and `mkd` to the markdown one.
pub proof fn law_routes_by_extension(path: Seq<char>, e: Seq<char>)
    requires
        extension(path) == Some(e),
    ensures
        ascii_lower_seq(e) == seq!['h', 't', 'm'] ==> classify_spec(path) == Some(FileKind::Html),
        ascii_lower_seq(e) == seq!['h', 't', 'm', 'l'] ==> classify_spec(path) == Some(FileKind::Html),
        ascii_lower_seq(e) == seq!['j', 's', 'o', 'n'] ==> classify_spec(path) == Some(FileKind::Json),
        ascii_lower_seq(e) == seq!['c', 's', 'v'] ==> classify_spec(path) == Some(FileKind::Csv),
        ascii_lower_seq(e) == seq!['p', 'd', 'f'] ==> classify_spec(path) == Some(FileKind::Pdf),
        ascii_lower_seq(e) == seq!['m', 'd'] ==> classify_spec(path) == Some(FileKind::Markdown),
        ascii_lower_seq(e) == seq!['m', 'a', 'r', 'k', 'd', 'o', 'w', 'n'] ==> classify_spec(path) == Some(
            FileKind::Markdown,
        ),
        ascii_lower_seq(e) == seq!['m', 'd', 'o', 'w', 'n'] ==> classify_spec(path) == Some(
            FileKind::Markdown,
        ),
        ascii_lower_seq(e) == seq!['m', 'k', 'd'] ==> classify_spec(path) == Some(FileKind::Markdown),
{
    reveal_strlit("md");
    reveal_strlit("markdown");
    reveal_strlit("mdown");
    reveal_strlit("mkd");
    reveal_strlit("json");
    reveal_strlit("csv");
    reveal_strlit("html");
    reveal_strlit("htm");
    reveal_strlit("pdf");
    let l = ascii_lower_seq(e);
    assert(l == seq!['h', 't', 'm'] ==> l =~= "htm"@);
    assert(l == seq!['h', 't', 'm', 'l'] ==> l =~= "html"@);
    assert(l == seq!['j', 's', 'o', 'n'] ==> l =~= "json"@);
    assert(l == seq!['c', 's', 'v'] ==> l =~= "csv"@);
    assert(l == seq!['p', 'd', 'f'] ==> l =~= "pdf"@);
    assert(l == seq!['m', 'd'] ==> l =~= "md"@);
    assert(l == seq!['m', 'a', 'r', 'k', 'd', 'o', 'w', 'n'] ==> l =~= "markdown"@);
    assert(l == seq!['m', 'd', 'o', 'w', 'n'] ==> l =~= "mdown"@);
    assert(l == seq!['m', 'k', 'd'] ==> l =~= "mkd"@);
}

/// Index of the last piece of `pieces` that is a path component.
fn last_component_index(pieces: &Vec<Vec<char>>) -> (r: Option<usize>)
    ensures
        match r {
            Some(k) => k < pieces.len() && last_component(views(pieces@)) == Some(
                pieces@[k as int]@,
            ),
            None => last_component(views(pieces@)) is None,
        },
{
    let mut k: usize = pieces.len();
    assert(views(pieces@).subrange(0, pieces.len() as int) =~= views(pieces@));
    while k > 0
        invariant
            k <= pieces.len(),
            last_component(views(pieces@)) == last_component(views(pieces@).subrange(0, k as int)),
        decreases k,
    {
        let p = &pieces[k - 1];
        assert(views(pieces@).subrange(0, k as int).drop_last() =~= views(pieces@).subrange(
            0,
            k - 1,
        ));
        if p.len() == 0 || eq_lit(p.as_slice(), ".") {
            k = k - 1;
        } else {
            proof {
                assert(views(pieces@)[k - 1] == p@);
                assert(views(pieces@).subrange(0, k as int).last() == p@);
            }
            return Some(k - 1);
        }
    }
    assert(views(pieces@).subrange(0, 0) =~= Seq::<Seq<char>>::empty());
    None
}

/// `Path::extension` of a `/`-separated path, as characters.
pub fn extension_of(path: &[char]) -> (r: Option<Vec<char>>)
    ensures
        match r {
            Some(e) => extension(path@) == Some(e@),
            None => extension(path@) is None,
        },
{
    let pieces = split_char(path, '/');
    let k = match last_component_index(&pieces) {
        Some(k) => k,
        None => return None,
    };
    let f = &pieces[k];
    assert(file_name(path@) == (if f@ == ".."@ { None } else { Some(f@) }));
    if eq_lit(f.as_slice(), "..") {
        return None;
    }
    let mut parts = split_char(f.as_slice(), '.');
    let ghost all = views(parts@);
    assert(all.len() == parts.len());
    if parts.len() < 2 || (parts.len() == 2 && parts[0].len() == 0) {
        proof {
            if parts.len() == 2 {
                assert(all[0] == parts@[0]@);
            }
        }
        return None;
    }
    proof {
        if parts.len() == 2 {
            assert(all[0] == parts@[0]@);
        }
    }
    let last = parts.pop().unwrap();
    assert(last@ == all.last());
    assert(all == split_on(f@, '.'));
    Some(last)
}

/// Route a file by the extension of its path. `None`: no handler.
pub fn classify(path: &str) -> (r: Option<FileKind>)
    ensures
        r == classify_spec(path@),
{
    let p = chars_of(path);
    let e = match extension_of(p.as_slice()) {
        Some(e) => e,
        None => return None,
    };
    let l = ascii_lowercase(e.as_slice());
    let s = l.as_slice();
    let images = ["png", "jpg", "jpeg", "gif", "webp"];
    let texts = [
        "txt", "py", "js", "ts", "rs", "go", "java", "rb", "sh",
        "c", "cpp", "h", "hpp", "cs", "swift", "kt", "scala",
        "r", "m", "mm", "sql", "yaml", "yml", "xml",
        "toml", "ini", "cfg", "conf", "properties", "rst", "log",
    ];
    proof {
        assert(str_views(images@) =~= image_extensions());
        assert(str_views(texts@) =~= text_extensions());
    }
    if eq_lit(s, "md") || eq_lit(s, "markdown") || eq_lit(s, "mdown") || eq_lit(s, "mkd") {
        Some(FileKind::Markdown)
    } else if eq_lit(s, "json") {
        Some(FileKind::Json)
    } else if eq_lit(s, "csv") {
        Some(FileKind::Csv)
    } else if eq_lit(s, "html") || eq_lit(s, "htm") {
        Some(FileKind::Html)
    } else if eq_lit(s, "pdf") {
        Some(FileKind::Pdf)
    } else if in_list(s, &images) {
        Some(FileKind::Image)
    } else if in_list(s, &texts) {
        Some(FileKind::Text)
    } else {
        None
    }
}


// ---------------------------------------------------------------------------
// Chunking
// ---------------------------------------------------------------------------

/// A paragraph larger than this many words is re-split at sentence
/// boundaries into pieces of at most this many words.
pub const MAX_CHUNK_WORDS: usize = 500;

/// `[t]` when `t` is not empty, else `[]`.
pub open spec fn nonempty(t: Seq<char>) -> Seq<Seq<char>> {
    if t.len() > 0 {
        seq![t]
    } else {
        seq![]
    }
}

/// Paragraphs of the lines `ls`, given the paragraph `cur` already begun: a
/// blank line (empty once trimmed) ends a paragraph; the lines of a
/// paragraph are kept joined by `\n`; each paragraph is trimmed and empty
/// ones are dropped.
pub open spec fn paras_from(ls: Seq<Seq<char>>, cur: Seq<char>) -> Seq<Seq<char>>
    decreases ls.len(),
{
    if ls.len() == 0 {
        nonempty(trim(cur))
    } else if trim(ls[0]).len() == 0 {
        nonempty(trim(cur)) + paras_from(ls.drop_first(), seq![])
    } else {
        paras_from(
            ls.drop_first(),
            if cur.len() > 0 {
                cur + seq!['\n'] + ls[0]
            } else {
                ls[0]
            },
        )
    }
}

/// The blank-line separated paragraphs of `s`.
pub open spec fn paragraphs(s: Seq<char>) -> Seq<Seq<char>> {
    paras_from(lines(s), seq![])
}

/// Paragraphs of `s`, as characters.
pub fn paragraphs_of(s: &[char]) -> (r: Vec<Vec<char>>)
    ensures
        views(r@) == paragraphs(s@),
{
    let ls = split_lines(s);
    let mut out: Vec<Vec<char>> = Vec::new();
    let mut cur: Vec<char> = Vec::new();
    let mut k: usize = 0;
    assert(views(ls@).subrange(0, ls.len() as int) =~= views(ls@));
    while k < ls.len()
        invariant
            k <= ls.len(),
            views(ls@) == lines(s@),
            paragraphs(s@) == views(out@) + paras_from(
                views(ls@).subrange(k as int, ls.len() as int),
                cur@,
            ),
        decreases ls.len() - k,
    {
        let ghost rest = views(ls@).subrange(k as int, ls.len() as int);
        assert(rest.drop_first() =~= views(ls@).subrange(k + 1, ls.len() as int));
        assert(rest[0] == ls@[k as int]@);
        let line = &ls[k];
        let (a, b) = trim_range(line.as_slice());
        if a == b {
            let (c, d) = trim_range(cur.as_slice());
            if c < d {
                let t = slice_vec(cur.as_slice(), c, d);
                proof {
                    assert(views(out@.push(t)) =~= views(out@) + seq![t@]);
                }
                out.push(t);
            } else {
                assert(views(out@) + seq![] =~= views(out@));
            }
            cur = Vec::new();
        } else {
            let ghost old_cur = cur@;
            if cur.len() > 0 {
                cur.push('\n');
            }
            push_all(&mut cur, line.as_slice());
            proof {
                if old_cur.len() > 0 {
                    assert(cur@ =~= old_cur + seq!['\n'] + line@);
                } else {
                    assert(cur@ =~= line@);
                }
            }
        }
        k = k + 1;
    }
    let (c, d) = trim_range(cur.as_slice());
    if c < d {
        let t = slice_vec(cur.as_slice(), c, d);
        proof {
            assert(views(out@.push(t)) =~= views(out@) + seq![t@]);
        }
        out.push(t);
    } else {
        assert(views(out@) + seq![] =~= views(out@));
    }
    out
}

/// Split on blank lines; each paragraph trimmed, empty ones dropped.
pub fn split_paragraphs(text: &str) -> (r: Vec<String>)
    ensures
        string_views(r@) == paragraphs(text@),
{
    let s = chars_of(text);
    let ps = paragraphs_of(s.as_slice());
    to_strings(&ps)
}

/// A character that may end a sentence.
pub open spec fn is_terminator(c: char) -> bool {
    c == '.' || c == '!' || c == '?'
}

/// Sentences of `s` from position `i`, the current sentence having begun at
/// `start`: a sentence ends after `.`, `!` or `?` followed by ASCII
/// whitespace; each sentence is trimmed and empty ones are dropped.
pub open spec fn sentences_from(s: Seq<char>, start: int, i: int) -> Seq<Seq<char>>
    decreases s.len() - i,
{
    if i >= s.len() {
        nonempty(trim(s.subrange(start, s.len() as int)))
    } else if is_terminator(s[i]) && i + 1 < s.len() && is_ascii_ws(s[i + 1]) {
        nonempty(trim(s.subrange(start, i + 1))) + sentences_from(s, i + 1, i + 1)
    } else {
        sentences_from(s, start, i + 1)
    }
}

/// The sentences of `s`.
pub open spec fn sentences(s: Seq<char>) -> Seq<Seq<char>> {
    sentences_from(s, 0, 0)
}

/// Sentences of `s`, as characters.
pub fn sentences_of(s: &[char]) -> (r: Vec<Vec<char>>)
    ensures
        views(r@) == sentences(s@),
{
    let mut out: Vec<Vec<char>> = Vec::new();
    let mut start: usize = 0;
    let mut i: usize = 0;
    while i < s.len()
        invariant
            start <= i <= s.len(),
            sentences(s@) == views(out@) + sentences_from(s@, start as int, i as int),
        decreases s.len() - i,
    {
        let c = s[i];
        if (c == '.' || c == '!' || c == '?') && i + 1 < s.len() && (s[i + 1] == ' ' || s[i + 1]
            == '\t' || s[i + 1] == '\n' || s[i + 1] == '\u{c}' || s[i + 1] == '\r') {
            let piece = slice_vec(s, start, i + 1);
            let t = trim_vec(piece.as_slice());
            if t.len() > 0 {
                proof {
                    assert(views(out@.push(t)) =~= views(out@) + seq![t@]);
                }
                out.push(t);
            } else {
                assert(views(out@) + seq![] =~= views(out@));
            }
            start = i + 1;
        }
        i = i + 1;
    }
    let piece = slice_vec(s, start, s.len());
    let t = trim_vec(piece.as_slice());
    if t.len() > 0 {
        proof {
            assert(views(out@.push(t)) =~= views(out@) + seq![t@]);
        }
        out.push(t);
    } else {
        assert(views(out@) + seq![] =~= views(out@));
    }
    out
}

/// Split a paragraph after `.`, `!` or `?` followed by ASCII whitespace;
/// each sentence trimmed, empty ones dropped.
pub fn split_sentences(para: &str) -> (r: Vec<String>)
    ensures
        string_views(r@) == sentences(para@),
{
    let s = chars_of(para);
    let v = sentences_of(s.as_slice());
    to_strings(&v)
}


/// Greedy packing of the sentences `ss` into chunks, given the sentences
/// `cur` already gathered and their word count `n`: a sentence that would
/// take a non-empty chunk over the cap starts a new chunk; the sentences of
/// a chunk are joined by single spaces.
pub open spec fn pack_from(ss: Seq<Seq<char>>, cur: Seq<Seq<char>>, n: int) -> Seq<Seq<char>>
    decreases ss.len(),
{
    if ss.len() == 0 {
        if cur.len() > 0 {
            seq![join(cur, seq![' '])]
        } else {
            seq![]
        }
    } else {
        let w = words(ss[0]).len() as int;
        if n + w > MAX_CHUNK_WORDS && cur.len() > 0 {
            seq![join(cur, seq![' '])] + pack_from(ss.drop_first(), seq![ss[0]], w)
        } else {
            pack_from(ss.drop_first(), cur.push(ss[0]), n + w)
        }
    }
}

/// The chunks of one paragraph: itself when it has at most
/// `MAX_CHUNK_WORDS` words, else its sentences packed.
pub open spec fn para_chunks(p: Seq<char>) -> Seq<Seq<char>> {
    if words(p).len() <= MAX_CHUNK_WORDS {
        seq![p]
    } else {
        pack_from(sentences(p), seq![], 0)
    }
}

/// The chunks of a list of paragraphs, in order.
pub open spec fn chunks_from(ps: Seq<Seq<char>>) -> Seq<Seq<char>>
    decreases ps.len(),
{
    if ps.len() == 0 {
        seq![]
    } else {
        para_chunks(ps[0]) + chunks_from(ps.drop_first())
    }
}

/// The memory-sized chunks of a text.
pub open spec fn text_chunks(s: Seq<char>) -> Seq<Seq<char>> {
    chunks_from(paragraphs(s))
}

/// Packs the sentences of a long paragraph, appending the chunks to `out`.
fn pack_sentences(out: &mut Vec<Vec<char>>, p: &[char])
    ensures
        views(final(out)@) == views(old(out)@) + pack_from(sentences(p@), seq![], 0),
{
    let ss = sentences_of(p);
    let ghost start = views(out@);
    let mut cur: Vec<Vec<char>> = Vec::new();
    let mut n: usize = 0;
    let mut k: usize = 0;
    let sep = [' '];
    assert(sep@ =~= seq![' ']);
    assert(views(ss@).subrange(0, ss.len() as int) =~= views(ss@));
    assert(views(cur@) =~= Seq::<Seq<char>>::empty());
    while k < ss.len()
        invariant
            k <= ss.len(),
            sep@ == seq![' '],
            cur@.len() == 0 ==> n == 0,
            n <= MAX_CHUNK_WORDS || cur@.len() <= 1,
            start + pack_from(sentences(p@), seq![], 0) == views(out@) + pack_from(
                views(ss@).subrange(k as int, ss.len() as int),
                views(cur@),
                n as int,
            ),
            views(ss@) == sentences(p@),
        decreases ss.len() - k,
    {
        let ghost rest = views(ss@).subrange(k as int, ss.len() as int);
        assert(rest.drop_first() =~= views(ss@).subrange(k + 1, ss.len() as int));
        assert(rest[0] == ss@[k as int]@);
        let w = word_count(ss[k].as_slice());
        if cur.len() > 0 && (w > MAX_CHUNK_WORDS || n > MAX_CHUNK_WORDS - w) {
            let j = join_chars(&cur, &sep);
            proof {
                assert(views(out@.push(j)) =~= views(out@) + seq![j@]);
            }
            out.push(j);
            cur = Vec::new();
            cur.push(ss[k].clone());
            assert(views(cur@) =~= seq![rest[0]]);
            n = w;
        } else {
            let ghost old_cur = views(cur@);
            cur.push(ss[k].clone());
            assert(views(cur@) =~= old_cur.push(rest[0]));
            n = n + w;
        }
        k = k + 1;
    }
    if cur.len() > 0 {
        let j = join_chars(&cur, &sep);
        proof {
            assert(views(out@.push(j)) =~= views(out@) + seq![j@]);
        }
        out.push(j);
    } else {
        assert(views(out@) + seq![] =~= views(out@));
    }
}

/// Chunks of `s`, as characters.
pub fn chunks_of(s: &[char]) -> (r: Vec<Vec<char>>)
    ensures
        views(r@) == text_chunks(s@),
{
    let ps = paragraphs_of(s);
    let mut out: Vec<Vec<char>> = Vec::new();
    let mut k: usize = 0;
    assert(views(ps@).subrange(0, ps.len() as int) =~= views(ps@));
    while k < ps.len()
        invariant
            k <= ps.len(),
            views(ps@) == paragraphs(s@),
            text_chunks(s@) == views(out@) + chunks_from(
                views(ps@).subrange(k as int, ps.len() as int),
            ),
        decreases ps.len() - k,
    {
        let ghost rest = views(ps@).subrange(k as int, ps.len() as int);
        assert(rest.drop_first() =~= views(ps@).subrange(k + 1, ps.len() as int));
        assert(rest[0] == ps@[k as int]@);
        let p = &ps[k];
        let w = word_count(p.as_slice());
        let ghost before = views(out@);
        if w <= MAX_CHUNK_WORDS {
            let c = p.clone();
            proof {
                assert(views(out@.push(c)) =~= views(out@) + seq![c@]);
            }
            out.push(c);
        } else {
            pack_sentences(&mut out, p.as_slice());
        }
        assert(views(out@) == before + para_chunks(rest[0]));
        k = k + 1;
    }
    assert(views(out@) + seq![] =~= views(out@));
    out
}

/// Split text into memory-sized chunks: blank-line paragraphs, with any
/// paragraph over `MAX_CHUNK_WORDS` words re-split at sentence boundaries
/// and its sentences packed greedily up to the cap.
pub fn chunk_text(text: &str) -> (r: Vec<String>)
    ensures
        string_views(r@) == text_chunks(text@),
        forall|i: int| 0 <= i < r@.len() ==> is_trimmed(#[trigger] r@[i]@),
{
    let s = chars_of(text);
    let v = chunks_of(s.as_slice());
    let r = to_strings(&v);
    proof {
        law_chunks_are_trimmed(text@);
        assert forall|i: int| 0 <= i < r@.len() implies is_trimmed(#[trigger] r@[i]@) by {
            assert(string_views(r@)[i] == r@[i]@);
        }
    }
    r
}

/// Text with something in it and no whitespace at either end.
pub open spec fn is_trimmed(c: Seq<char>) -> bool {
    c.len() > 0 && !is_ws(c[0]) && !is_ws(c.last())
}

/// Every piece is trimmed and non-empty.
pub open spec fn all_trimmed(cs: Seq<Seq<char>>) -> bool {
    forall|i: int| 0 <= i < cs.len() ==> is_trimmed(#[trigger] cs[i])
}

proof fn lemma_trim_start_shape(s: Seq<char>)
    ensures
        trim_start(s).len() > 0 ==> !is_ws(trim_start(s)[0]),
    decreases s.len(),
{
    if s.len() > 0 && is_ws(s[0]) {
        lemma_trim_start_shape(s.drop_first());
    }
}

proof fn lemma_trim_end_shape(s: Seq<char>)
    ensures
        trim_end(s).len() <= s.len(),
        trim_end(s) == s.subrange(0, trim_end(s).len() as int),
        trim_end(s).len() > 0 ==> !is_ws(trim_end(s).last()),
    decreases s.len(),
{
    if s.len() > 0 && is_ws(s.last()) {
        lemma_trim_end_shape(s.drop_last());
        let n = trim_end(s.drop_last()).len() as int;
        assert(s.drop_last().subrange(0, n) =~= s.subrange(0, n));
    } else {
        assert(s.subrange(0, s.len() as int) =~= s);
    }
}

/// A trimmed text that is not empty starts and ends with non-whitespace.
pub proof fn lemma_trim_is_trimmed(s: Seq<char>)
    ensures
        trim(s).len() > 0 ==> is_trimmed(trim(s)),
{
    lemma_trim_start_shape(s);
    lemma_trim_end_shape(trim_start(s));
    if trim(s).len() > 0 {
        assert(trim(s)[0] == trim_start(s)[0]);
    }
}

proof fn lemma_all_trimmed_concat(a: Seq<Seq<char>>, b: Seq<Seq<char>>)
    requires
        all_trimmed(a),
        all_trimmed(b),
    ensures
        all_trimmed(a + b),
{
    assert forall|i: int| 0 <= i < (a + b).len() implies is_trimmed(#[trigger] (a + b)[i]) by {
        if i < a.len() {
            assert((a + b)[i] == a[i]);
        } else {
            assert((a + b)[i] == b[i - a.len()]);
        }
    }
}

proof fn lemma_nonempty_trim(s: Seq<char>)
    ensures
        all_trimmed(nonempty(trim(s))),
{
    lemma_trim_is_trimmed(s);
}

proof fn lemma_paras_trimmed(ls: Seq<Seq<char>>, cur: Seq<char>)
    ensures
        all_trimmed(paras_from(ls, cur)),
    decreases ls.len(),
{
    lemma_nonempty_trim(cur);
    if ls.len() == 0 {
    } else if trim(ls[0]).len() == 0 {
        lemma_paras_trimmed(ls.drop_first(), seq![]);
        lemma_all_trimmed_concat(nonempty(trim(cur)), paras_from(ls.drop_first(), seq![]));
    } else {
        lemma_paras_trimmed(
            ls.drop_first(),
            if cur.len() > 0 {
                cur + seq!['\n'] + ls[0]
            } else {
                ls[0]
            },
        );
    }
}

proof fn lemma_sentences_trimmed(s: Seq<char>, start: int, i: int)
    ensures
        all_trimmed(sentences_from(s, start, i)),
    decreases s.len() - i,
{
    if i >= s.len() {
        lemma_nonempty_trim(s.subrange(start, s.len() as int));
    } else if is_terminator(s[i]) && i + 1 < s.len() && is_ascii_ws(s[i + 1]) {
        lemma_nonempty_trim(s.subrange(start, i + 1));
        lemma_sentences_trimmed(s, i + 1, i + 1);
        lemma_all_trimmed_concat(
            nonempty(trim(s.subrange(start, i + 1))),
            sentences_from(s, i + 1, i + 1),
        );
    } else {
        lemma_sentences_trimmed(s, start, i + 1);
    }
}

proof fn lemma_join_trimmed(parts: Seq<Seq<char>>)
    requires
        parts.len() > 0,
        all_trimmed(parts),
    ensures
        is_trimmed(join(parts, seq![' '])),
    decreases parts.len(),
{
    if parts.len() > 1 {
        assert forall|i: int| 0 <= i < parts.drop_last().len() implies is_trimmed(
            #[trigger] parts.drop_last()[i],
        ) by {
            assert(parts.drop_last()[i] == parts[i]);
        }
        lemma_join_trimmed(parts.drop_last());
        let j = join(parts.drop_last(), seq![' ']);
        let r = j + seq![' '] + parts.last();
        assert(is_trimmed(parts[parts.len() - 1]));
        assert(r[0] == j[0]);
        assert(r.last() == parts.last().last());
    } else {
        assert(is_trimmed(parts[0]));
    }
}

proof fn lemma_pack_trimmed(ss: Seq<Seq<char>>, cur: Seq<Seq<char>>, n: int)
    requires
        all_trimmed(ss),
        all_trimmed(cur),
    ensures
        all_trimmed(pack_from(ss, cur, n)),
    decreases ss.len(),
{
    if ss.len() == 0 {
        if cur.len() > 0 {
            lemma_join_trimmed(cur);
        }
    } else {
        let w = words(ss[0]).len() as int;
        assert(is_trimmed(ss[0]));
        assert forall|i: int| 0 <= i < ss.drop_first().len() implies is_trimmed(
            #[trigger] ss.drop_first()[i],
        ) by {
            assert(ss.drop_first()[i] == ss[i + 1]);
        }
        if n + w > MAX_CHUNK_WORDS && cur.len() > 0 {
            lemma_join_trimmed(cur);
            lemma_pack_trimmed(ss.drop_first(), seq![ss[0]], w);
            lemma_all_trimmed_concat(
                seq![join(cur, seq![' '])],
                pack_from(ss.drop_first(), seq![ss[0]], w),
            );
        } else {
            assert forall|i: int| 0 <= i < cur.push(ss[0]).len() implies is_trimmed(
                #[trigger] cur.push(ss[0])[i],
            ) by {
                if i < cur.len() {
                    assert(cur.push(ss[0])[i] == cur[i]);
                }
            }
            lemma_pack_trimmed(ss.drop_first(), cur.push(ss[0]), n + w);
        }
    }
}

proof fn lemma_chunks_trimmed(ps: Seq<Seq<char>>)
    requires
        all_trimmed(ps),
    ensures
        all_trimmed(chunks_from(ps)),
    decreases ps.len(),
{
    if ps.len() > 0 {
        assert(is_trimmed(ps[0]));
        if words(ps[0]).len() > MAX_CHUNK_WORDS {
            lemma_sentences_trimmed(ps[0], 0, 0);
            lemma_pack_trimmed(sentences(ps[0]), seq![], 0);
        }
        assert forall|i: int| 0 <= i < ps.drop_first().len() implies is_trimmed(
            #[trigger] ps.drop_first()[i],
        ) by {
            assert(ps.drop_first()[i] == ps[i + 1]);
        }
        lemma_chunks_trimmed(ps.drop_first());
        lemma_all_trimmed_concat(para_chunks(ps[0]), chunks_from(ps.drop_first()));
    }
}

/// Every chunk of a text is non-empty and has no whitespace at either end.
pub proof fn law_chunks_are_trimmed(s: Seq<char>)
    ensures
        all_trimmed(text_chunks(s)),
{
    lemma_paras_trimmed(lines(s), seq![]);
    lemma_chunks_trimmed(paragraphs(s));
}


/// A chunk within the word cap, or one sentence of `all` taken whole.
pub open spec fn within_cap_or_sentence(c: Seq<char>, all: Seq<Seq<char>>) -> bool {
    words(c).len() <= MAX_CHUNK_WORDS || all.contains(c)
}

/// Packing keeps every chunk within the cap unless it is a single sentence.
proof fn lemma_pack_within_cap(
    ss: Seq<Seq<char>>,
    cur: Seq<Seq<char>>,
    n: int,
    all: Seq<Seq<char>>,
)
    requires
        n == sum_words(cur),
        cur.len() >= 2 ==> n <= MAX_CHUNK_WORDS,
        cur.len() == 1 ==> all.contains(cur[0]),
        forall|i: int| 0 <= i < ss.len() ==> all.contains(#[trigger] ss[i]),
    ensures
        forall|i: int|
            0 <= i < pack_from(ss, cur, n).len() ==> within_cap_or_sentence(
                #[trigger] pack_from(ss, cur, n)[i],
                all,
            ),
    decreases ss.len(),
{
    let out = pack_from(ss, cur, n);
    if cur.len() > 0 {
        lemma_words_of_space_join(cur);
        if cur.len() == 1 {
            assert(join(cur, seq![' ']) == cur[0]);
        }
        assert(within_cap_or_sentence(join(cur, seq![' ']), all));
    }
    if ss.len() == 0 {
        if cur.len() > 0 {
            assert(out == seq![join(cur, seq![' '])]);
        } else {
            assert(out.len() == 0);
        }
    } else {
        let w = words(ss[0]).len() as int;
        assert(all.contains(ss[0]));
        assert forall|i: int| 0 <= i < ss.drop_first().len() implies all.contains(
            #[trigger] ss.drop_first()[i],
        ) by {
            assert(ss.drop_first()[i] == ss[i + 1]);
        }
        if n + w > MAX_CHUNK_WORDS && cur.len() > 0 {
            let one = seq![ss[0]];
            assert(one.drop_last() =~= Seq::<Seq<char>>::empty());
            assert(sum_words(one.drop_last()) == 0);
            assert(one.last() == ss[0]);
            assert(sum_words(one) == w);
            assert(one[0] == ss[0]);
            lemma_pack_within_cap(ss.drop_first(), one, w, all);
            let tail = pack_from(ss.drop_first(), one, w);
            assert(out == seq![join(cur, seq![' '])] + tail);
            assert forall|i: int| 0 <= i < out.len() implies within_cap_or_sentence(
                #[trigger] out[i],
                all,
            ) by {
                if i > 0 {
                    assert(out[i] == tail[i - 1]);
                }
            }
        } else {
            let next = cur.push(ss[0]);
            assert(next.drop_last() =~= cur);
            assert(sum_words(next) == n + w);
            if cur.len() == 0 {
                assert(next[0] == ss[0]);
            }
            lemma_pack_within_cap(ss.drop_first(), next, n + w, all);
            assert(out == pack_from(ss.drop_first(), next, n + w));
        }
    }
}

/// The chunks of a list of paragraphs are within the cap unless they are
/// single sentences of one of the paragraphs.
proof fn lemma_chunks_within_cap(ps: Seq<Seq<char>>)
    ensures
        forall|i: int|
            0 <= i < chunks_from(ps).len() ==> words(#[trigger] chunks_from(ps)[i]).len()
                <= MAX_CHUNK_WORDS || exists|j: int|
                0 <= j < ps.len() && sentences(ps[j]).contains(chunks_from(ps)[i]),
    decreases ps.len(),
{
    if ps.len() > 0 {
        let p = ps[0];
        let head = para_chunks(p);
        let rest = chunks_from(ps.drop_first());
        lemma_chunks_within_cap(ps.drop_first());
        if words(p).len() > MAX_CHUNK_WORDS {
            let all = sentences(p);
            assert forall|i: int| 0 <= i < all.len() implies all.contains(#[trigger] all[i]) by {}
            assert(sum_words(Seq::<Seq<char>>::empty()) == 0);
            lemma_pack_within_cap(all, seq![], 0, all);
        }
        assert forall|i: int|
            0 <= i < chunks_from(ps).len() implies words(#[trigger] chunks_from(ps)[i]).len()
            <= MAX_CHUNK_WORDS || exists|j: int|
            0 <= j < ps.len() && sentences(ps[j]).contains(chunks_from(ps)[i]) by {
            let c = chunks_from(ps)[i];
            if i < head.len() {
                assert(c == head[i]);
                if words(p).len() > MAX_CHUNK_WORDS {
                    assert(within_cap_or_sentence(head[i], sentences(p)));
                }
            } else {
                assert(c == rest[i - head.len()]);
                if words(c).len() > MAX_CHUNK_WORDS {
                    let j = choose|j: int|
                        0 <= j < ps.drop_first().len() && sentences(ps.drop_first()[j]).contains(
                            rest[i - head.len()],
                        );
                    assert(ps.drop_first()[j] == ps[j + 1]);
                }
            }
        }
    }
}

/// A chunk of a text has at most `MAX_CHUNK_WORDS` words, unless it is one
/// sentence, taken whole, of one of the text's paragraphs (a sentence is
/// never cut).
pub proof fn law_chunk_word_cap(s: Seq<char>)
    ensures
        forall|i: int|
            0 <= i < text_chunks(s).len() ==> words(#[trigger] text_chunks(s)[i]).len()
                <= MAX_CHUNK_WORDS || exists|j: int|
                0 <= j < paragraphs(s).len() && sentences(paragraphs(s)[j]).contains(
                    text_chunks(s)[i],
                ),
{
    lemma_chunks_within_cap(paragraphs(s));
}


/// A kept piece (`nonempty(trim(t))`) holds the words of `t`.
proof fn lemma_words_nonempty_trim(t: Seq<char>)
    ensures
        crate::text::flat_words(nonempty(trim(t))) == words(t),
{
    crate::text::lemma_words_trim(t);
    if trim(t).len() > 0 {
        crate::text::lemma_flat_words_one(trim(t));
    } else {
        assert(trim(t) =~= Seq::<char>::empty());
        assert(words(trim(t)) =~= Seq::<Seq<char>>::empty());
        assert(crate::text::flat_words(nonempty(trim(t))) =~= Seq::<Seq<char>>::empty());
    }
}

/// Splitting into sentences keeps the words of the text from `start`.
proof fn lemma_words_of_sentences(s: Seq<char>, start: int, i: int)
    requires
        0 <= start <= i,
        start <= s.len(),
    ensures
        crate::text::flat_words(sentences_from(s, start, i)) == words(s.subrange(start, s.len() as int)),
    decreases s.len() - i,
{
    if i >= s.len() {
        lemma_words_nonempty_trim(s.subrange(start, s.len() as int));
    } else if is_terminator(s[i]) && i + 1 < s.len() && is_ascii_ws(s[i + 1]) {
        lemma_words_of_sentences(s, i + 1, i + 1);
        lemma_words_nonempty_trim(s.subrange(start, i + 1));
        let a = s.subrange(start, i + 1);
        let c = s[i + 1];
        let b = s.subrange(i + 2, s.len() as int);
        assert(a + seq![c] + b =~= s.subrange(start, s.len() as int));
        crate::text::lemma_words_ws_join(a, c, b, seq![]);
        assert(Seq::<char>::empty() + seq![c] + b =~= s.subrange(i + 1, s.len() as int));
        crate::text::lemma_words_ws_join(Seq::<char>::empty(), c, b, seq![]);
        assert(words(Seq::<char>::empty()) =~= Seq::<Seq<char>>::empty());
        crate::text::lemma_flat_words_concat(nonempty(trim(a)), sentences_from(s, i + 1, i + 1));
    } else {
        lemma_words_of_sentences(s, start, i + 1);
    }
}

/// Packing pieces into chunks keeps their words, after those of the pieces
/// `cur` already gathered.
proof fn lemma_words_of_pack(ss: Seq<Seq<char>>, cur: Seq<Seq<char>>, n: int)
    ensures
        crate::text::flat_words(pack_from(ss, cur, n)) == crate::text::flat_words(cur)
            + crate::text::flat_words(ss),
    decreases ss.len(),
{
    if ss.len() == 0 {
        if cur.len() > 0 {
            crate::text::lemma_words_of_joined(cur);
            crate::text::lemma_flat_words_one(join(cur, seq![' ']));
        } else {
            assert(crate::text::flat_words(cur) =~= Seq::<Seq<char>>::empty());
        }
        assert(crate::text::flat_words(ss) =~= Seq::<Seq<char>>::empty());
        assert(crate::text::flat_words(cur) + Seq::<Seq<char>>::empty() =~= crate::text::flat_words(cur));
    } else {
        let w = words(ss[0]).len() as int;
        let rest = ss.drop_first();
        crate::text::lemma_flat_words_one(ss[0]);
        if n + w > MAX_CHUNK_WORDS && cur.len() > 0 {
            lemma_words_of_pack(rest, seq![ss[0]], w);
            crate::text::lemma_words_of_joined(cur);
            crate::text::lemma_flat_words_one(join(cur, seq![' ']));
            crate::text::lemma_flat_words_concat(seq![join(cur, seq![' '])], pack_from(rest, seq![ss[0]], w));
        } else {
            lemma_words_of_pack(rest, cur.push(ss[0]), n + w);
            crate::text::lemma_flat_words_concat(cur, seq![ss[0]]);
            assert(cur + seq![ss[0]] =~= cur.push(ss[0]));
        }
        assert(crate::text::flat_words(ss) == words(ss[0]) + crate::text::flat_words(rest));
    }
}

/// The chunks of a paragraph hold its words.
proof fn lemma_words_of_para_chunks(p: Seq<char>)
    ensures
        crate::text::flat_words(para_chunks(p)) == words(p),
{
    if words(p).len() <= MAX_CHUNK_WORDS {
        crate::text::lemma_flat_words_one(p);
    } else {
        lemma_words_of_pack(sentences(p), seq![], 0);
        lemma_words_of_sentences(p, 0, 0);
        assert(p.subrange(0, p.len() as int) =~= p);
        assert(crate::text::flat_words(Seq::<Seq<char>>::empty()) =~= Seq::<Seq<char>>::empty());
        assert(Seq::<Seq<char>>::empty() + crate::text::flat_words(sentences(p)) =~= crate::text::flat_words(
            sentences(p),
        ));
    }
}

/// The chunks of a list of paragraphs hold their words, in order.
proof fn lemma_words_of_chunks(ps: Seq<Seq<char>>)
    ensures
        crate::text::flat_words(chunks_from(ps)) == crate::text::flat_words(ps),
    decreases ps.len(),
{
    if ps.len() > 0 {
        lemma_words_of_chunks(ps.drop_first());
        lemma_words_of_para_chunks(ps[0]);
        crate::text::lemma_flat_words_concat(para_chunks(ps[0]), chunks_from(ps.drop_first()));
    }
}

/// Paragraphs hold the words of the lines they gather, after those of the
/// paragraph `cur` already begun.
proof fn lemma_words_of_paras(ls: Seq<Seq<char>>, cur: Seq<char>)
    ensures
        crate::text::flat_words(paras_from(ls, cur)) == words(cur) + crate::text::flat_words(ls),
    decreases ls.len(),
{
    if ls.len() == 0 {
        lemma_words_nonempty_trim(cur);
        assert(crate::text::flat_words(ls) =~= Seq::<Seq<char>>::empty());
        assert(words(cur) + Seq::<Seq<char>>::empty() =~= words(cur));
    } else {
        let rest = ls.drop_first();
        assert(crate::text::flat_words(ls) == words(ls[0]) + crate::text::flat_words(rest));
        if trim(ls[0]).len() == 0 {
            lemma_words_of_paras(rest, seq![]);
            lemma_words_nonempty_trim(cur);
            crate::text::lemma_words_trim(ls[0]);
            assert(trim(ls[0]) =~= Seq::<char>::empty());
            assert(words(trim(ls[0])) =~= Seq::<Seq<char>>::empty());
            assert(words(Seq::<char>::empty()) =~= Seq::<Seq<char>>::empty());
            crate::text::lemma_flat_words_concat(nonempty(trim(cur)), paras_from(rest, seq![]));
            assert(Seq::<Seq<char>>::empty() + crate::text::flat_words(rest) =~= crate::text::flat_words(rest));
        } else {
            let next = if cur.len() > 0 {
                cur + seq!['\n'] + ls[0]
            } else {
                ls[0]
            };
            lemma_words_of_paras(rest, next);
            if cur.len() > 0 {
                crate::text::lemma_words_ws_join(cur, '\n', ls[0], seq![]);
            } else {
                assert(cur =~= Seq::<char>::empty());
                assert(words(cur) =~= Seq::<Seq<char>>::empty());
                assert(Seq::<Seq<char>>::empty() + words(ls[0]) =~= words(ls[0]));
            }
            assert(words(next) == words(cur) + words(ls[0]));
            assert((words(cur) + words(ls[0])) + crate::text::flat_words(rest) =~= words(cur) + (words(ls[0])
                + crate::text::flat_words(rest)));
        }
    }
}

/// Chunking keeps every word of the text, in order: the words of the
/// chunks, one chunk after another, are the words of the text.
pub proof fn law_chunks_keep_every_word(s: Seq<char>)
    ensures
        crate::text::flat_words(text_chunks(s)) == words(s),
{
    lemma_words_of_chunks(paragraphs(s));
    lemma_words_of_paras(lines(s), seq![]);
    crate::text::lemma_words_of_lines(s, seq![]);
    assert(Seq::<char>::empty() + s =~= s);
    assert(words(Seq::<char>::empty()) =~= Seq::<Seq<char>>::empty());
    assert(Seq::<Seq<char>>::empty() + crate::text::flat_words(lines(s)) =~= crate::text::flat_words(lines(s)));
}

// ---------------------------------------------------------------------------
// CSV delimiter
// ---------------------------------------------------------------------------

/// The first line of `s` (`str::lines().next()`), or nothing.
pub open spec fn first_line(s: Seq<char>) -> Seq<char> {
    if lines(s).len() > 0 {
        lines(s)[0]
    } else {
        seq![]
    }
}

/// The delimiter among `,` `;` tab `|` that occurs most often in the first
/// line; of equally frequent ones, the later in that order.
pub open spec fn sniff_spec(s: Seq<char>) -> char {
    let l = first_line(s);
    let c0 = count_char(l, ',');
    let c1 = count_char(l, ';');
    let c2 = count_char(l, '\t');
    let c3 = count_char(l, '|');
    let (d1, m1) = if c1 >= c0 {
        (';', c1)
    } else {
        (',', c0)
    };
    let (d2, m2) = if c2 >= m1 {
        ('\t', c2)
    } else {
        (d1, m1)
    };
    if c3 >= m2 {
        '|'
    } else {
        d2
    }
}

/// Pick the delimiter that splits the first line into the most fields.
pub fn sniff_delimiter(text: &str) -> (d: char)
    ensures
        d == sniff_spec(text@),
{
    let s = chars_of(text);
    let ls = split_lines(s.as_slice());
    let first: Vec<char> = if ls.len() > 0 {
        assert(views(ls@)[0] == ls@[0]@);
        ls[0].clone()
    } else {
        Vec::new()
    };
    let l = first.as_slice();
    let c0 = count_of(l, ',');
    let c1 = count_of(l, ';');
    let c2 = count_of(l, '\t');
    let c3 = count_of(l, '|');
    let (d1, m1) = if c1 >= c0 {
        (';', c1)
    } else {
        (',', c0)
    };
    let (d2, m2) = if c2 >= m1 {
        ('\t', c2)
    } else {
        (d1, m1)
    };
    if c3 >= m2 {
        '|'
    } else {
        d2
    }
}


// ---------------------------------------------------------------------------
// Markdown frontmatter and sections
// ---------------------------------------------------------------------------

/// The keys and values of a list of strings pairs.
pub open spec fn pair_views(v: Seq<(String, String)>) -> Seq<(Seq<char>, Seq<char>)> {
    v.map_values(|p: (String, String)| (p.0@, p.1@))
}

/// Index of the first line at or after `i` that reads `---` once trimmed.
pub open spec fn fence_from(ls: Seq<Seq<char>>, i: int) -> Option<int>
    decreases ls.len() - i,
{
    if i >= ls.len() {
        None
    } else if trim(ls[i]) == "---"@ {
        Some(i)
    } else {
        fence_from(ls, i + 1)
    }
}

/// The `key: value` pair of one frontmatter line: the key trimmed; the value
/// trimmed, stripped of surrounding brackets, then of surrounding quotes.
/// Lines without `:` or with an empty key give nothing.
pub open spec fn front_pair(l: Seq<char>) -> Seq<(Seq<char>, Seq<char>)> {
    match split_once(l, ':') {
        Some((k, v)) => if trim(k).len() > 0 {
            seq![(trim(k), trim_set(trim_set(trim(v), seq!['[', ']']), seq!['\'', '"']))]
        } else {
            seq![]
        },
        None => seq![],
    }
}

/// The pairs of a list of frontmatter lines, in order.
pub open spec fn front_pairs(ls: Seq<Seq<char>>) -> Seq<(Seq<char>, Seq<char>)>
    decreases ls.len(),
{
    if ls.len() == 0 {
        seq![]
    } else {
        front_pairs(ls.drop_last()) + front_pair(ls.last())
    }
}

/// Frontmatter of `s` and the body after it: when `s`, leading whitespace
/// aside, opens with `---` and a later line reads `---`, the pairs of the
/// lines between and the lines after the closing fence joined by `\n`;
/// otherwise no pairs and `s` unchanged.
pub open spec fn frontmatter_spec(s: Seq<char>) -> (Seq<(Seq<char>, Seq<char>)>, Seq<char>) {
    let t = trim_start(s);
    if !starts_with(t, "---"@) {
        (seq![], s)
    } else {
        let ls = lines(t);
        match fence_from(ls, 1) {
            Some(e) => (front_pairs(ls.subrange(1, e)), join(ls.subrange(e + 1, ls.len() as int), seq!['\n'])),
            None => (seq![], s),
        }
    }
}

/// The pair of one frontmatter line, if it has one.
fn front_pair_of(l: &[char]) -> (r: Option<(String, String)>)
    ensures
        match r {
            Some(p) => front_pair(l@) == seq![(p.0@, p.1@)],
            None => front_pair(l@) == Seq::<(Seq<char>, Seq<char>)>::empty(),
        },
{
    let i = match position_of(l, ':') {
        Some(i) => i,
        None => return None,
    };
    let k = slice_vec(l, 0, i);
    let v = slice_vec(l, i + 1, l.len());
    let kt = trim_vec(k.as_slice());
    if kt.len() == 0 {
        return None;
    }
    let vt = trim_vec(v.as_slice());
    let brackets = ['[', ']'];
    let quotes = ['\'', '"'];
    assert(brackets@ =~= seq!['[', ']']);
    assert(quotes@ =~= seq!['\'', '"']);
    let vb = trim_set_vec(vt.as_slice(), &brackets);
    let vq = trim_set_vec(vb.as_slice(), &quotes);
    Some((string_of(kt.as_slice()), string_of(vq.as_slice())))
}

/// Parse simple `key: value` frontmatter between `---` fences. Returns the
/// pairs and the body.
pub fn parse_frontmatter(text: &str) -> (r: (Vec<(String, String)>, String))
    ensures
        (pair_views(r.0@), r.1@) == frontmatter_spec(text@),
{
    let s = chars_of(text);
    let a = trim_start_index(s.as_slice());
    let t = slice_vec(s.as_slice(), a, s.len());
    let fence = chars_of("---");
    if !has_prefix(t.as_slice(), fence.as_slice()) {
        assert(pair_views(Seq::<(String, String)>::empty()) =~= Seq::<(Seq<char>, Seq<char>)>::empty());
        return (Vec::new(), text.to_string());
    }
    let ls = split_lines(t.as_slice());
    let mut e: usize = 1;
    let mut found = false;
    while !found && e < ls.len()
        invariant
            1 <= e,
            views(ls@) == lines(t@),
            fence@ == "---"@,
            found ==> e < ls.len() && fence_from(views(ls@), 1) == Some(e as int),
            !found ==> fence_from(views(ls@), 1) == fence_from(views(ls@), e as int),
        decreases ls.len() - e, if found { 0int } else { 1int },
    {
        let tl = trim_vec(ls[e].as_slice());
        assert(views(ls@)[e as int] == ls@[e as int]@);
        if seq_equal(tl.as_slice(), fence.as_slice()) {
            found = true;
        } else {
            e = e + 1;
        }
    }
    if !found {
        assert(pair_views(Seq::<(String, String)>::empty()) =~= Seq::<(Seq<char>, Seq<char>)>::empty());
        return (Vec::new(), text.to_string());
    }
    assert(fence_from(views(ls@), 1) == Some(e as int));
    let mut pairs: Vec<(String, String)> = Vec::new();
    let mut k: usize = 1;
    while k < e
        invariant
            1 <= k <= e < ls.len(),
            views(ls@) == lines(t@),
            pair_views(pairs@) == front_pairs(views(ls@).subrange(1, k as int)),
        decreases e - k,
    {
        let ghost before = pair_views(pairs@);
        assert(views(ls@).subrange(1, k + 1).drop_last() =~= views(ls@).subrange(1, k as int));
        assert(views(ls@).subrange(1, k + 1).last() == ls@[k as int]@);
        match front_pair_of(ls[k].as_slice()) {
            Some(p) => {
                pairs.push(p);
                assert(pair_views(pairs@) =~= before + seq![(p.0@, p.1@)]);
            },
            None => {
                assert(before + Seq::<(Seq<char>, Seq<char>)>::empty() =~= before);
            },
        }
        k = k + 1;
    }
    let mut rest: Vec<Vec<char>> = Vec::new();
    let mut k: usize = e + 1;
    while k < ls.len()
        invariant
            e + 1 <= k <= ls.len(),
            views(rest@) == views(ls@).subrange(e + 1, k as int),
        decreases ls.len() - k,
    {
        let c = ls[k].clone();
        assert(c@ == ls@[k as int]@);
        assert(views(ls@)[k as int] == ls@[k as int]@);
        let ghost before = views(rest@);
        rest.push(c);
        assert(views(rest@) =~= before.push(c@));
        k = k + 1;
        assert(views(rest@) =~= views(ls@).subrange(e + 1, k as int));
    }
    let nl = ['\n'];
    assert(nl@ =~= seq!['\n']);
    let body = join_chars(&rest, &nl);
    (pairs, string_of(body.as_slice()))
}


/// End of the line of `s` that starts at `i`: just past its `\n`, or the
/// end of `s` (`str::split_inclusive('\n')`).
pub open spec fn line_end(s: Seq<char>, i: int) -> int
    decreases s.len() - i,
{
    if i >= s.len() {
        s.len() as int
    } else if s[i] == '\n' {
        i + 1
    } else {
        line_end(s, i + 1)
    }
}

/// A line ends after it starts.
pub proof fn lemma_line_end(s: Seq<char>, i: int)
    requires
        0 <= i < s.len(),
    ensures
        i < line_end(s, i) <= s.len(),
    decreases s.len() - i,
{
    if s[i] == '\n' {
        assert(line_end(s, i) == i + 1);
    } else if i + 1 < s.len() {
        lemma_line_end(s, i + 1);
    } else {
        assert(line_end(s, i + 1) == s.len());
    }
}

/// The title of a `## ` heading line: the line, trailing whitespace
/// dropped, must begin with `## `; the rest, trimmed, is the title.
pub open spec fn heading_title(line: Seq<char>) -> Option<Seq<char>> {
    let t = trim_end(line);
    if starts_with(t, "## "@) {
        Some(trim(t.subrange(3, t.len() as int)))
    } else {
        None
    }
}

/// The headings among the lines of `s` from position `i`: the start and
/// end of each heading line, and its title.
pub open spec fn headings_from(s: Seq<char>, i: int) -> Seq<(int, int, Seq<char>)>
    decreases s.len() - i,
{
    if i < 0 || i >= s.len() {
        seq![]
    } else {
        let e = line_end(s, i);
        proof {
            lemma_line_end(s, i);
        }
        let rest = headings_from(s, e);
        match heading_title(s.subrange(i, e)) {
            Some(t) => seq![(i, e, t)] + rest,
            None => rest,
        }
    }
}

/// The sections of a markdown text: for each `## ` heading, its title and
/// the trimmed text from the end of the heading line to the start of the
/// next heading (or the end of the text).
pub open spec fn sections_spec(s: Seq<char>) -> Seq<(Seq<char>, Seq<char>)> {
    let h = headings_from(s, 0);
    Seq::new(
        h.len(),
        |k: int|
            {
                let end = if k + 1 < h.len() {
                    h[k + 1].0
                } else {
                    s.len() as int
                };
                let body_end = if end > h[k].1 {
                    end
                } else {
                    h[k].1
                };
                (h[k].2, trim(s.subrange(h[k].1, body_end)))
            },
    )
}

/// End of the line of `s` that starts at `i`.
fn line_end_of(s: &[char], i: usize) -> (e: usize)
    requires
        i < s.len(),
    ensures
        e == line_end(s@, i as int),
        i < e <= s.len(),
{
    let mut j = i;
    while j < s.len() && s[j] != '\n'
        invariant
            i <= j <= s.len(),
            line_end(s@, i as int) == line_end(s@, j as int),
        decreases s.len() - j,
    {
        j = j + 1;
    }
    proof {
        lemma_line_end(s@, i as int);
    }
    if j < s.len() {
        j + 1
    } else {
        j
    }
}

/// The heading title of the line `s[i..e]`, if it is a heading.
fn heading_of(s: &[char], i: usize, e: usize) -> (r: Option<Vec<char>>)
    requires
        i <= e <= s.len(),
    ensures
        match r {
            Some(t) => heading_title(s@.subrange(i as int, e as int)) == Some(t@),
            None => heading_title(s@.subrange(i as int, e as int)) is None,
        },
{
    let line = slice_vec(s, i, e);
    let j = trim_end_index(line.as_slice(), line.len());
    assert(line@.subrange(0, line.len() as int) =~= line@);
    let t = slice_vec(line.as_slice(), 0, j);
    let mark = chars_of("## ");
    proof {
        reveal_strlit("## ");
    }
    if !has_prefix(t.as_slice(), mark.as_slice()) {
        return None;
    }
    let rest = slice_vec(t.as_slice(), 3, t.len());
    Some(trim_vec(rest.as_slice()))
}

/// `## Heading` sections of a markdown text, as (title, body) pairs; empty
/// when the text has no `## ` heading.
pub fn extract_sections(text: &str) -> (r: Vec<(String, String)>)
    ensures
        pair_views(r@) == sections_spec(text@),
{
    let s = chars_of(text);
    let ghost sv = s@;
    let mut hs: Vec<(usize, usize, Vec<char>)> = Vec::new();
    let mut i: usize = 0;
    while i < s.len()
        invariant
            i <= s.len(),
            sv == s@,
            headings_from(sv, 0) == hs@.map_values(
                |h: (usize, usize, Vec<char>)| (h.0 as int, h.1 as int, h.2@),
            ) + headings_from(sv, i as int),
            forall|k: int| 0 <= k < hs.len() ==> #[trigger] hs@[k].0 < hs@[k].1 <= i,
        decreases s.len() - i,
    {
        let e = line_end_of(s.as_slice(), i);
        let ghost before = hs@.map_values(
            |h: (usize, usize, Vec<char>)| (h.0 as int, h.1 as int, h.2@),
        );
        match heading_of(s.as_slice(), i, e) {
            Some(t) => {
                let ghost tv = t@;
                hs.push((i, e, t));
                assert(hs@.map_values(
                    |h: (usize, usize, Vec<char>)| (h.0 as int, h.1 as int, h.2@),
                ) =~= before + seq![(i as int, e as int, tv)]);
            },
            None => {},
        }
        i = e;
    }
    let ghost hv = hs@.map_values(|h: (usize, usize, Vec<char>)| (h.0 as int, h.1 as int, h.2@));
    assert(hv + Seq::<(int, int, Seq<char>)>::empty() =~= hv);
    assert(headings_from(sv, 0) == hv);
    let mut out: Vec<(String, String)> = Vec::new();
    let mut k: usize = 0;
    while k < hs.len()
        invariant
            k <= hs.len(),
            sv == s@,
            hv == hs@.map_values(|h: (usize, usize, Vec<char>)| (h.0 as int, h.1 as int, h.2@)),
            hv == headings_from(sv, 0),
            forall|j: int| 0 <= j < hs.len() ==> #[trigger] hs@[j].0 < hs@[j].1 <= s.len(),
            pair_views(out@) == sections_spec(sv).subrange(0, k as int),
        decreases hs.len() - k,
    {
        let b = hs[k].1;
        let end = if k + 1 < hs.len() {
            hs[k + 1].0
        } else {
            s.len()
        };
        let body_end = if end > b {
            end
        } else {
            b
        };
        assert(hv[k as int] == (hs@[k as int].0 as int, hs@[k as int].1 as int, hs@[k as int].2@));
        if k + 1 < hs.len() {
            assert(hv[k + 1] == (
                hs@[k + 1].0 as int,
                hs@[k + 1].1 as int,
                hs@[k + 1].2@,
            ));
        }
        let body = slice_vec(s.as_slice(), b, body_end);
        let bt = trim_vec(body.as_slice());
        let title = string_of(hs[k].2.as_slice());
        let ghost before = pair_views(out@);
        out.push((title, string_of(bt.as_slice())));
        assert(pair_views(out@) =~= before.push((title@, bt@)));
        k = k + 1;
        assert(pair_views(out@) =~= sections_spec(sv).subrange(0, k as int));
    }
    assert(sections_spec(sv).subrange(0, hs.len() as int) =~= sections_spec(sv));
    out
}


// ---------------------------------------------------------------------------
// HTML text
// ---------------------------------------------------------------------------

/// Whether the tag opening at `i` is one whose end reads as a paragraph
/// break: `</p>`, `</div>`, `</h…` or `<br…` (ASCII case ignored).
pub open spec fn is_break_tag(s: Seq<char>, i: int) -> bool {
    occurs_ci_at(s, "</p>"@, i) || occurs_ci_at(s, "</div>"@, i) || occurs_ci_at(s, "</h"@, i)
        || occurs_ci_at(s, "<br"@, i)
}

/// The visible text of `s` from position `i`: a `<script` or `<style`
/// element is dropped up to and including its closing tag (and everything
/// after it when the closing tag is missing); any other tag is dropped up to
/// its `>` (and everything after it when `>` is missing), a paragraph-break
/// tag leaving two newlines; other characters are kept. Tag names are
/// matched with ASCII case ignored.
pub open spec fn html_text_from(s: Seq<char>, i: int) -> Seq<char>
    decreases s.len() - i, 1int,
{
    if i < 0 || i >= s.len() {
        seq![]
    } else if s[i] == '<' {
        if occurs_ci_at(s, "<script"@, i) {
            skip_element(s, i + 1, "</script>"@)
        } else if occurs_ci_at(s, "<style"@, i) {
            skip_element(s, i + 1, "</style>"@)
        } else {
            let brk: Seq<char> = if is_break_tag(s, i) {
                seq!['\n', '\n']
            } else {
                seq![]
            };
            match find_char_from(s, '>', i) {
                Some(j) => if i <= j < s.len() {
                    brk + html_text_from(s, j + 1)
                } else {
                    brk
                },
                None => brk,
            }
        }
    } else {
        seq![s[i]] + html_text_from(s, i + 1)
    }
}

/// The visible text after skipping, from `i`, to the end of the first
/// `close` tag (nothing when there is none).
pub open spec fn skip_element(s: Seq<char>, i: int, close: Seq<char>) -> Seq<char>
    decreases s.len() - i + 1, 0int,
{
    match find_ci_from(s, close, i) {
        Some(j) => if j >= i && close.len() > 0 && j + close.len() <= s.len() {
            html_text_from(s, j + close.len())
        } else {
            seq![]
        },
        None => seq![],
    }
}


/// A closing `</div>` tag (ASCII case ignored) reads as a paragraph break:
/// the visible text from it is two newlines, then the text after the tag.
pub proof fn law_div_close_is_paragraph_break(s: Seq<char>, i: int)
    requires
        occurs_ci_at(s, "</div>"@, i),
    ensures
        html_text_from(s, i) == seq!['\n', '\n'] + html_text_from(s, i + 6),
{
    reveal_strlit("</div>");
    reveal_strlit("<script");
    reveal_strlit("<style");
    reveal_strlit("</p>");
    reveal_strlit("</h");
    reveal_strlit("<br");
    let sub = s.subrange(i, i + 6);
    assert("</div>"@ =~= seq!['<', '/', 'd', 'i', 'v', '>']);
    assert(ascii_lower_seq(sub) == seq!['<', '/', 'd', 'i', 'v', '>']);
    assert(ascii_lower_seq(sub)[0] == ascii_lower(s[i]));
    assert(ascii_lower_seq(sub)[1] == ascii_lower(s[i + 1]));
    assert(ascii_lower_seq(sub)[2] == ascii_lower(s[i + 2]));
    assert(ascii_lower_seq(sub)[3] == ascii_lower(s[i + 3]));
    assert(ascii_lower_seq(sub)[4] == ascii_lower(s[i + 4]));
    assert(ascii_lower_seq(sub)[5] == ascii_lower(s[i + 5]));
    assert(ascii_lower(s[i]) == '<');
    assert(ascii_lower(s[i + 1]) == '/');
    assert(ascii_lower(s[i + 2]) == 'd');
    assert(ascii_lower(s[i + 3]) == 'i');
    assert(ascii_lower(s[i + 4]) == 'v');
    assert(ascii_lower(s[i + 5]) == '>');
    assert(s[i] == '<');
    assert(s[i + 5] == '>');
    assert(s[i + 1] != '>' && s[i + 2] != '>' && s[i + 3] != '>' && s[i + 4] != '>');
    assert(!occurs_ci_at(s, "<script"@, i)) by {
        if occurs_ci_at(s, "<script"@, i) {
            let t = s.subrange(i, i + 7);
            assert(ascii_lower_seq(t)[1] == ascii_lower(t[1]));
            assert(t[1] == s[i + 1]);
        }
    }
    assert(!occurs_ci_at(s, "<style"@, i)) by {
        if occurs_ci_at(s, "<style"@, i) {
            let t = s.subrange(i, i + 6);
            assert(ascii_lower_seq(t)[1] == ascii_lower(t[1]));
            assert(t[1] == s[i + 1]);
        }
    }
    assert(is_break_tag(s, i));
    assert(find_char_from(s, '>', i + 5) == Some(i + 5));
    assert(find_char_from(s, '>', i + 4) == Some(i + 5));
    assert(find_char_from(s, '>', i + 3) == Some(i + 5));
    assert(find_char_from(s, '>', i + 2) == Some(i + 5));
    assert(find_char_from(s, '>', i + 1) == Some(i + 5));
    assert(find_char_from(s, '>', i) == Some(i + 5));
}


/// A closing `</p>` tag (ASCII case ignored) reads as a paragraph break.
pub proof fn law_p_close_is_paragraph_break(s: Seq<char>, i: int)
    requires
        occurs_ci_at(s, "</p>"@, i),
    ensures
        html_text_from(s, i) == seq!['\n', '\n'] + html_text_from(s, i + 4),
{
    reveal_strlit("</p>");
    reveal_strlit("<script");
    reveal_strlit("<style");
    let sub = s.subrange(i, i + 4);
    assert("</p>"@ =~= seq!['<', '/', 'p', '>']);
    assert(ascii_lower_seq(sub) == seq!['<', '/', 'p', '>']);
    assert(ascii_lower_seq(sub)[0] == ascii_lower(s[i]));
    assert(ascii_lower_seq(sub)[1] == ascii_lower(s[i + 1]));
    assert(ascii_lower_seq(sub)[2] == ascii_lower(s[i + 2]));
    assert(ascii_lower_seq(sub)[3] == ascii_lower(s[i + 3]));
    assert(s[i] == '<');
    assert(s[i + 3] == '>');
    assert(s[i + 1] != '>' && s[i + 2] != '>');
    assert(!occurs_ci_at(s, "<script"@, i)) by {
        if occurs_ci_at(s, "<script"@, i) {
            let t = s.subrange(i, i + 7);
            assert(ascii_lower_seq(t)[1] == ascii_lower(t[1]));
            assert(t[1] == s[i + 1]);
        }
    }
    assert(!occurs_ci_at(s, "<style"@, i)) by {
        if occurs_ci_at(s, "<style"@, i) {
            let t = s.subrange(i, i + 6);
            assert(ascii_lower_seq(t)[1] == ascii_lower(t[1]));
            assert(t[1] == s[i + 1]);
        }
    }
    assert(is_break_tag(s, i));
    assert(find_char_from(s, '>', i + 3) == Some(i + 3));
    assert(find_char_from(s, '>', i + 2) == Some(i + 3));
    assert(find_char_from(s, '>', i + 1) == Some(i + 3));
    assert(find_char_from(s, '>', i) == Some(i + 3));
}

/// The common entities decoded, in this order: `&nbsp;` `&amp;` `&lt;`
/// `&gt;` `&quot;` `&#39;`.
pub open spec fn decode_entities(t: Seq<char>) -> Seq<char> {
    let a = replace_all(t, "&nbsp;"@, " "@);
    let b = replace_all(a, "&amp;"@, "&"@);
    let c = replace_all(b, "&lt;"@, "<"@);
    let d = replace_all(c, "&gt;"@, ">"@);
    let e = replace_all(d, "&quot;"@, "\""@);
    replace_all(e, "&#39;"@, "'"@)
}

/// The readable text of an HTML document.
pub open spec fn strip_html_spec(s: Seq<char>) -> Seq<char> {
    decode_entities(html_text_from(s, 0))
}

/// Where the visible text resumes after skipping from `from` to the end of
/// the first `close` tag; `None` when there is no such tag.
fn after_close(s: &[char], from: usize, close: &[char]) -> (r: Option<usize>)
    requires
        close.len() > 0,
    ensures
        match r {
            Some(k) => from + close.len() <= k <= s.len() && skip_element(s@, from as int, close@) == html_text_from(
                s@,
                k as int,
            ),
            None => skip_element(s@, from as int, close@) == Seq::<char>::empty(),
        },
{
    match find_ci(s, close, from) {
        Some(j) => {
            assert(find_ci_from(s@, close@, from as int) == Some(j as int));
            assert(skip_element(s@, from as int, close@) == html_text_from(
                s@,
                j + close.len(),
            ));
            Some(j + close.len())
        },
        None => None,
    }
}

/// Drop `<script>`/`<style>` blocks, strip tags, decode the common entities.
pub fn strip_html(html: &str) -> (r: String)
    ensures
        r@ == strip_html_spec(html@),
{
    let s = chars_of(html);
    let sv = s.as_slice();
    let script = chars_of("<script");
    let style = chars_of("<style");
    let end_script = chars_of("</script>");
    let end_style = chars_of("</style>");
    let p_end = chars_of("</p>");
    let div_end = chars_of("</div>");
    let h_end = chars_of("</h");
    let br = chars_of("<br");
    proof {
        reveal_strlit("</script>");
        reveal_strlit("</style>");
    }
    let mut out: Vec<char> = Vec::new();
    let mut i: usize = 0;
    let mut done = false;
    while !done && i < sv.len()
        invariant
            i <= sv.len(),
            sv@ == html@,
            script@ == "<script"@,
            style@ == "<style"@,
            end_script@ == "</script>"@,
            end_style@ == "</style>"@,
            p_end@ == "</p>"@,
            div_end@ == "</div>"@,
            h_end@ == "</h"@,
            br@ == "<br"@,
            done ==> out@ == html_text_from(sv@, 0),
            !done ==> html_text_from(sv@, 0) == out@ + html_text_from(sv@, i as int),
        decreases sv.len() - i, if done { 0int } else { 1int },
    {
        proof {
            reveal_strlit("</script>");
            reveal_strlit("</style>");
        }
        let c = sv[i];
        if c == '<' {
            let is_script = matches_ci_at(sv, script.as_slice(), i);
            let is_style = !is_script && matches_ci_at(sv, style.as_slice(), i);
            if is_script || is_style {
                let next = if is_script {
                    after_close(sv, i + 1, end_script.as_slice())
                } else {
                    after_close(sv, i + 1, end_style.as_slice())
                };
                assert(html_text_from(sv@, i as int) == skip_element(
                    sv@,
                    i + 1,
                    if is_script {
                        "</script>"@
                    } else {
                        "</style>"@
                    },
                ));
                match next {
                    Some(k) => {
                        i = k;
                    },
                    None => {
                        assert(out@ + Seq::<char>::empty() =~= out@);
                        done = true;
                    },
                }
            } else {
                let ghost before = out@;
                let brk = matches_ci_at(sv, p_end.as_slice(), i) || matches_ci_at(
                    sv,
                    div_end.as_slice(),
                    i,
                ) || matches_ci_at(sv, h_end.as_slice(), i) || matches_ci_at(
                    sv,
                    br.as_slice(),
                    i,
                );
                assert(brk == is_break_tag(sv@, i as int));
                if brk {
                    out.push('\n');
                    out.push('\n');
                }
                let ghost b: Seq<char> = if brk {
                    seq!['\n', '\n']
                } else {
                    seq![]
                };
                assert(out@ =~= before + b);
                match find_char_at_or_after(sv, '>', i) {
                    Some(j) => {
                        assert(sv@[i as int] == '<');
                        assert(!occurs_ci_at(sv@, "<script"@, i as int));
                        assert(!occurs_ci_at(sv@, "<style"@, i as int));
                        assert(find_char_from(sv@, '>', i as int) == Some(j as int));
                        assert(html_text_from(sv@, i as int) == b + html_text_from(sv@, j + 1));
                        assert(before + (b + html_text_from(sv@, j + 1)) =~= out@ + html_text_from(
                            sv@,
                            j + 1,
                        ));
                        i = j + 1;
                    },
                    None => {
                        assert(html_text_from(sv@, i as int) == b);
                        assert(before + b =~= out@);
                        done = true;
                    },
                }
            }
        } else {
            let ghost before = out@;
            out.push(c);
            assert(before + (seq![c] + html_text_from(sv@, i + 1)) =~= out@ + html_text_from(
                sv@,
                i + 1,
            ));
            i = i + 1;
        }
    }
    if !done {
        assert(out@ + Seq::<char>::empty() =~= out@);
    }
    let a = replace_chars(out.as_slice(), chars_of("&nbsp;").as_slice(), chars_of(" ").as_slice());
    let b = replace_chars(a.as_slice(), chars_of("&amp;").as_slice(), chars_of("&").as_slice());
    let c = replace_chars(b.as_slice(), chars_of("&lt;").as_slice(), chars_of("<").as_slice());
    let d = replace_chars(c.as_slice(), chars_of("&gt;").as_slice(), chars_of(">").as_slice());
    let e = replace_chars(d.as_slice(), chars_of("&quot;").as_slice(), chars_of("\"").as_slice());
    let f = replace_chars(e.as_slice(), chars_of("&#39;").as_slice(), chars_of("'").as_slice());
    string_of(f.as_slice())
}

// ---------------------------------------------------------------------------
// What an ingested file becomes
// ---------------------------------------------------------------------------

/// Chunks shorter than this, in UTF-8 bytes once trimmed, are skipped.
pub const MIN_CHUNK_LENGTH: usize = 10;

/// A chunk is stored trimmed, unless it is then shorter than
/// `MIN_CHUNK_LENGTH` bytes.
pub open spec fn stored_chunk_spec(chunk: Seq<char>) -> Option<Seq<char>> {
    if vstd::utf8::encode_utf8(trim(chunk)).len() >= MIN_CHUNK_LENGTH {
        Some(trim(chunk))
    } else {
        None
    }
}

/// The text to store for a chunk: trimmed, or `None` when it is too short.
pub fn stored_chunk(chunk: &str) -> (r: Option<String>)
    ensures
        match r {
            Some(t) => stored_chunk_spec(chunk@) == Some(t@),
            None => stored_chunk_spec(chunk@) is None,
        },
{
    let c = chars_of(chunk);
    let t = trim_vec(c.as_slice());
    if crate::text::utf8_len_at_least(t.as_slice(), MIN_CHUNK_LENGTH) {
        Some(string_of(t.as_slice()))
    } else {
        None
    }
}

/// The memory type a name denotes (its `snake_case` name), if any.
pub open spec fn memory_type_spec(s: Seq<char>) -> Option<MemoryType> {
    if s == "episodic"@ {
        Some(MemoryType::Episodic)
    } else if s == "semantic"@ {
        Some(MemoryType::Semantic)
    } else if s == "procedural"@ {
        Some(MemoryType::Procedural)
    } else if s == "affective"@ {
        Some(MemoryType::Affective)
    } else if s == "prospective"@ {
        Some(MemoryType::Prospective)
    } else if s == "schematic"@ {
        Some(MemoryType::Schematic)
    } else {
        None
    }
}

/// The memory type a name denotes, if any.
pub fn memory_type_named(s: &str) -> (r: Option<MemoryType>)
    ensures
        r == memory_type_spec(s@),
{
    let c = chars_of(s);
    let v = c.as_slice();
    if eq_lit(v, "episodic") {
        Some(MemoryType::Episodic)
    } else if eq_lit(v, "semantic") {
        Some(MemoryType::Semantic)
    } else if eq_lit(v, "procedural") {
        Some(MemoryType::Procedural)
    } else if eq_lit(v, "affective") {
        Some(MemoryType::Affective)
    } else if eq_lit(v, "prospective") {
        Some(MemoryType::Prospective)
    } else if eq_lit(v, "schematic") {
        Some(MemoryType::Schematic)
    } else {
        None
    }
}

/// The memory type frontmatter sets: the value of the first `type` key when
/// it names a type; `Semantic` otherwise.
pub open spec fn front_type(front: Seq<(Seq<char>, Seq<char>)>) -> MemoryType
    decreases front.len(),
{
    if front.len() == 0 {
        MemoryType::Semantic
    } else if front[0].0 == "type"@ {
        match memory_type_spec(front[0].1) {
            Some(t) => t,
            None => MemoryType::Semantic,
        }
    } else {
        front_type(front.drop_first())
    }
}

/// The non-empty pieces of a list.
pub open spec fn nonempty_pieces(ps: Seq<Seq<char>>) -> Seq<Seq<char>>
    decreases ps.len(),
{
    if ps.len() == 0 {
        seq![]
    } else if ps.last().len() == 0 {
        nonempty_pieces(ps.drop_last())
    } else {
        nonempty_pieces(ps.drop_last()).push(ps.last())
    }
}

/// The tags a `tags:` value lists: split on commas, trimmed, empty ones
/// dropped.
pub open spec fn listed_tags(v: Seq<char>) -> Seq<Seq<char>> {
    nonempty_pieces(split_on(v, ',').map_values(|t: Seq<char>| trim(t)))
}

/// The tags every `tags` key of the frontmatter adds, in order.
pub open spec fn front_tags(front: Seq<(Seq<char>, Seq<char>)>) -> Seq<Seq<char>>
    decreases front.len(),
{
    if front.len() == 0 {
        seq![]
    } else {
        front_tags(front.drop_last()) + if front.last().0 == "tags"@ {
            listed_tags(front.last().1)
        } else {
            seq![]
        }
    }
}

/// A title's slug: lower-cased, every character that is not an ASCII letter
/// or digit turned into `_`, and runs of `_` collapsed (none at the ends).
pub open spec fn slug_spec(title: Seq<char>) -> Seq<char> {
    let folded = lowercase(title).map_values(
        |c: char|
            if is_ascii_alnum(c) {
                c
            } else {
                '_'
            },
    );
    join(nonempty_pieces(split_on(folded, '_')), seq!['_'])
}

/// The non-empty pieces of a list, copied.
fn keep_nonempty(ps: &Vec<Vec<char>>) -> (r: Vec<Vec<char>>)
    ensures
        views(r@) == nonempty_pieces(views(ps@)),
{
    let mut out: Vec<Vec<char>> = Vec::new();
    let mut k: usize = 0;
    assert(views(ps@).subrange(0, 0) =~= Seq::<Seq<char>>::empty());
    while k < ps.len()
        invariant
            k <= ps@.len(),
            views(out@) == nonempty_pieces(views(ps@).subrange(0, k as int)),
        decreases ps@.len() - k,
    {
        let ghost sub = views(ps@).subrange(0, k + 1);
        assert(sub.drop_last() =~= views(ps@).subrange(0, k as int));
        assert(sub.last() == ps@[k as int]@);
        if ps[k].len() > 0 {
            let ghost before = views(out@);
            out.push(ps[k].clone());
            assert(views(out@) =~= before.push(ps@[k as int]@));
        }
        k = k + 1;
    }
    assert(views(ps@).subrange(0, ps@.len() as int) =~= views(ps@));
    out
}

/// A section title's slug tag.
pub fn section_slug(title: &str) -> (r: String)
    ensures
        r@ == slug_spec(title@),
{
    let l = to_lowercase(title);
    let mut v = chars_of(l.as_str());
    let ghost lv = v@;
    let mut i: usize = 0;
    while i < v.len()
        invariant
            i <= v@.len(),
            v@.len() == lv.len(),
            forall|j: int|
                0 <= j < i ==> v@[j] == (if is_ascii_alnum(lv[j]) {
                    lv[j]
                } else {
                    '_'
                }),
            forall|j: int| i <= j < v@.len() ==> v@[j] == lv[j],
        decreases v@.len() - i,
    {
        let c = v[i];
        if !(('a' <= c && c <= 'z') || ('A' <= c && c <= 'Z') || ('0' <= c && c <= '9')) {
            v.set(i, '_');
        }
        i = i + 1;
    }
    assert(v@ =~= lv.map_values(
        |c: char|
            if is_ascii_alnum(c) {
                c
            } else {
                '_'
            },
    ));
    let pieces = split_char(v.as_slice(), '_');
    let kept = keep_nonempty(&pieces);
    let sep = ['_'];
    assert(sep@ =~= seq!['_']);
    let j = join_chars(&kept, &sep);
    string_of(j.as_slice())
}

/// Chunks to store as memories of one type with one list of tags.
pub struct IngestBatch {
    pub chunks: Vec<String>,
    pub memory_type: MemoryType,
    pub tags: Vec<String>,
}

/// A batch as plain values: its chunks, type and tags.
pub open spec fn batch_view(b: IngestBatch) -> (Seq<Seq<char>>, MemoryType, Seq<Seq<char>>) {
    (string_views(b.chunks@), b.memory_type, string_views(b.tags@))
}

/// Batches as plain values.
pub open spec fn batch_views(v: Seq<IngestBatch>) -> Seq<(Seq<Seq<char>>, MemoryType, Seq<Seq<char>>)> {
    v.map_values(|b: IngestBatch| batch_view(b))
}

/// The batches of markdown sections and the number skipped: a section whose
/// trimmed body is under 3 bytes is skipped; otherwise its body (prefixed by
/// `title: ` when it has a title) is one chunk, tagged with the common tags
/// and the title's slug when that is new and not empty.
pub open spec fn section_plan(
    secs: Seq<(Seq<char>, Seq<char>)>,
    ty: MemoryType,
    tags: Seq<Seq<char>>,
) -> (Seq<(Seq<Seq<char>>, MemoryType, Seq<Seq<char>>)>, nat)
    decreases secs.len(),
{
    if secs.len() == 0 {
        (seq![], 0)
    } else {
        let (bs, skipped) = section_plan(secs.drop_last(), ty, tags);
        let title = secs.last().0;
        let c = trim(secs.last().1);
        if vstd::utf8::encode_utf8(c).len() < 3 {
            (bs, skipped + 1)
        } else {
            let full = if title.len() == 0 {
                c
            } else {
                title + ": "@ + c
            };
            let slug = slug_spec(title);
            let st = if title.len() > 0 && slug.len() > 0 && !tags.contains(slug) {
                tags.push(slug)
            } else {
                tags
            };
            (bs.push((seq![full], ty, st)), skipped)
        }
    }
}

/// What a markdown file becomes: its frontmatter sets the type (default
/// semantic) and adds tags; with `## ` sections, one batch per section;
/// without, the body's chunks as one batch. Also the number of sections
/// skipped.
pub open spec fn markdown_plan_spec(text: Seq<char>, base: Seq<Seq<char>>) -> (
    Seq<(Seq<Seq<char>>, MemoryType, Seq<Seq<char>>)>,
    nat,
) {
    let front = frontmatter_spec(text).0;
    let body = frontmatter_spec(text).1;
    let ty = front_type(front);
    let tags = base + front_tags(front);
    let secs = sections_spec(body);
    if secs.len() == 0 {
        (seq![(text_chunks(body), ty, tags)], 0)
    } else {
        section_plan(secs, ty, tags)
    }
}

/// The tags every memory of an ingested file carries: the caller's tags and
/// `source:<file>`; a CSV file's memories add `csv` and `file:<file>`, and
/// its schema summary `schema` too; an image's caption adds `vision` unless
/// it is already there.
pub open spec fn ingest_tags_spec(
    kind: FileKind,
    file: Seq<char>,
    base: Seq<Seq<char>>,
    has_schema: bool,
) -> Seq<Seq<char>> {
    let with_source = base.push("source:"@ + file);
    match kind {
        FileKind::Csv => {
            let t = with_source.push("csv"@).push("file:"@ + file);
            if has_schema {
                t.push("schema"@)
            } else {
                t
            }
        },
        FileKind::Image => if with_source.contains("vision"@) {
            with_source
        } else {
            with_source.push("vision"@)
        },
        _ => with_source,
    }
}

/// The tags of the memories of an ingested file (`has_schema` says whether
/// the memory is a CSV schema summary).
pub fn ingest_tags(kind: FileKind, file: &str, base: &Vec<String>, has_schema: bool) -> (r: Vec<String>)
    ensures
        string_views(r@) == ingest_tags_spec(kind, file@, string_views(base@), has_schema),
{
    proof {
        reveal_strlit("source:");
        reveal_strlit("csv");
        reveal_strlit("file:");
        reveal_strlit("schema");
        reveal_strlit("vision");
    }
    let mut tags = copy_strings(base);
    let ghost t0 = string_views(tags@);
    tags.push(concat("source:", file));
    let ghost t1 = string_views(tags@);
    assert(t1 =~= t0.push("source:"@ + file@));
    match kind {
        FileKind::Csv => {
            tags.push(String::from_str("csv"));
            tags.push(concat("file:", file));
            let ghost t2 = string_views(tags@);
            assert(t2 =~= t1.push("csv"@).push("file:"@ + file@));
            if has_schema {
                tags.push(String::from_str("schema"));
                assert(string_views(tags@) =~= t2.push("schema"@));
            }
        },
        FileKind::Image => {
            if !crate::engines::dream_steps::listed_in(&tags, "vision") {
                tags.push(String::from_str("vision"));
                assert(string_views(tags@) =~= t1.push("vision"@));
            }
        },
        _ => {},
    }
    tags
}


/// Copies of a list of strings.
pub fn copy_strings(v: &Vec<String>) -> (r: Vec<String>)
    ensures
        string_views(r@) == string_views(v@),
{
    let mut out: Vec<String> = Vec::new();
    let mut k: usize = 0;
    while k < v.len()
        invariant
            k <= v@.len(),
            string_views(out@) == string_views(v@).subrange(0, k as int),
        decreases v@.len() - k,
    {
        let ghost before = string_views(out@);
        out.push(v[k].clone());
        assert(string_views(out@) =~= before.push(v@[k as int]@));
        k = k + 1;
        assert(string_views(out@) =~= string_views(v@).subrange(0, k as int));
    }
    assert(string_views(v@).subrange(0, v@.len() as int) =~= string_views(v@));
    out
}

/// Whether a list of strings holds `x`.
fn holds_string(v: &Vec<String>, x: &String) -> (r: bool)
    ensures
        r == string_views(v@).contains(x@),
{
    let mut k: usize = 0;
    while k < v.len()
        invariant
            k <= v@.len(),
            forall|j: int| 0 <= j < k ==> string_views(v@)[j] != x@,
        decreases v@.len() - k,
    {
        if crate::text::str_eq(v[k].as_str(), x.as_str()) {
            assert(string_views(v@)[k as int] == x@);
            return true;
        }
        k = k + 1;
    }
    false
}

/// The memory type the frontmatter sets.
fn front_type_of(front: &Vec<(String, String)>) -> (r: MemoryType)
    ensures
        r == front_type(pair_views(front@)),
{
    let ghost fv = pair_views(front@);
    let mut k: usize = 0;
    assert(fv.subrange(0, fv.len() as int) =~= fv);
    while k < front.len()
        invariant
            k <= front@.len(),
            fv == pair_views(front@),
            front_type(fv) == front_type(fv.subrange(k as int, fv.len() as int)),
        decreases front@.len() - k,
    {
        let ghost rest = fv.subrange(k as int, fv.len() as int);
        assert(rest.drop_first() =~= fv.subrange(k + 1, fv.len() as int));
        assert(rest[0] == (front@[k as int].0@, front@[k as int].1@));
        let key = chars_of(front[k].0.as_str());
        if eq_lit(key.as_slice(), "type") {
            return match memory_type_named(front[k].1.as_str()) {
                Some(t) => t,
                None => MemoryType::Semantic,
            };
        }
        k = k + 1;
    }
    assert(fv.subrange(k as int, fv.len() as int) =~= Seq::<(Seq<char>, Seq<char>)>::empty());
    MemoryType::Semantic
}

/// The tags of a `tags:` value.
fn listed_tags_of(v: &str) -> (r: Vec<String>)
    ensures
        string_views(r@) == listed_tags(v@),
{
    let c = chars_of(v);
    let pieces = split_char(c.as_slice(), ',');
    let mut trimmed: Vec<Vec<char>> = Vec::new();
    let mut k: usize = 0;
    while k < pieces.len()
        invariant
            k <= pieces@.len(),
            views(trimmed@) == views(pieces@).subrange(0, k as int).map_values(|t: Seq<char>| trim(t)),
        decreases pieces@.len() - k,
    {
        let t = trim_vec(pieces[k].as_slice());
        let ghost before = views(trimmed@);
        let ghost tv = t@;
        trimmed.push(t);
        assert(views(trimmed@) =~= before.push(tv));
        assert(tv == trim(views(pieces@)[k as int]));
        assert(views(trimmed@) =~= views(pieces@).subrange(0, k + 1).map_values(|t: Seq<char>| trim(t)));
        k = k + 1;
    }
    assert(views(pieces@).subrange(0, pieces@.len() as int) =~= views(pieces@));
    let kept = keep_nonempty(&trimmed);
    to_strings(&kept)
}

/// The tags the frontmatter adds.
fn front_tags_of(front: &Vec<(String, String)>) -> (r: Vec<String>)
    ensures
        string_views(r@) == front_tags(pair_views(front@)),
{
    let ghost fv = pair_views(front@);
    let mut out: Vec<String> = Vec::new();
    let mut k: usize = 0;
    assert(string_views(out@) =~= Seq::<Seq<char>>::empty());
    assert(fv.subrange(0, 0) =~= Seq::<(Seq<char>, Seq<char>)>::empty());
    while k < front.len()
        invariant
            k <= front@.len(),
            fv == pair_views(front@),
            string_views(out@) == front_tags(fv.subrange(0, k as int)),
        decreases front@.len() - k,
    {
        let ghost sub = fv.subrange(0, k + 1);
        assert(sub.drop_last() =~= fv.subrange(0, k as int));
        assert(sub.last() == (front@[k as int].0@, front@[k as int].1@));
        let key = chars_of(front[k].0.as_str());
        if eq_lit(key.as_slice(), "tags") {
            let more = listed_tags_of(front[k].1.as_str());
            let mut j: usize = 0;
            let ghost before = string_views(out@);
            while j < more.len()
                invariant
                    j <= more@.len(),
                    string_views(out@) == before + string_views(more@).subrange(0, j as int),
                decreases more@.len() - j,
            {
                let c = more[j].clone();
                let ghost b2 = string_views(out@);
                let ghost cv = c@;
                out.push(c);
                assert(string_views(out@) =~= b2.push(cv));
                j = j + 1;
                assert(string_views(out@) =~= before + string_views(more@).subrange(0, j as int));
            }
            assert(string_views(more@).subrange(0, more@.len() as int) =~= string_views(more@));
        } else {
            assert(string_views(out@) + Seq::<Seq<char>>::empty() =~= string_views(out@));
        }
        k = k + 1;
    }
    assert(fv.subrange(0, fv.len() as int) =~= fv);
    out
}

/// What a markdown file becomes, with `tags` applied to everything: the
/// batches to store and the number of sections skipped.
pub fn markdown_plan(text: &str, tags: &Vec<String>) -> (r: (Vec<IngestBatch>, usize))
    ensures
        (batch_views(r.0@), r.1 as nat) == markdown_plan_spec(text@, string_views(tags@)),
{
    let (front, body) = parse_frontmatter(text);
    let ty = front_type_of(&front);
    let mut all_tags = copy_strings(tags);
    let extra = front_tags_of(&front);
    let ghost base = string_views(all_tags@);
    let mut j: usize = 0;
    assert(string_views(extra@).subrange(0, 0) =~= Seq::<Seq<char>>::empty());
    assert(base + Seq::<Seq<char>>::empty() =~= base);
    while j < extra.len()
        invariant
            j <= extra@.len(),
            string_views(all_tags@) == base + string_views(extra@).subrange(0, j as int),
        decreases extra@.len() - j,
    {
        let c = extra[j].clone();
        let ghost b2 = string_views(all_tags@);
        let ghost cv = c@;
        all_tags.push(c);
        assert(string_views(all_tags@) =~= b2.push(cv));
        j = j + 1;
        assert(string_views(all_tags@) =~= base + string_views(extra@).subrange(0, j as int));
    }
    assert(string_views(extra@).subrange(0, extra@.len() as int) =~= string_views(extra@));
    let ghost tv = string_views(all_tags@);
    let secs = extract_sections(body.as_str());
    let mut out: Vec<IngestBatch> = Vec::new();
    if secs.len() == 0 {
        let chunks = chunk_text(body.as_str());
        out.push(IngestBatch { chunks, memory_type: ty, tags: all_tags });
        assert(batch_views(out@) =~= seq![(text_chunks(body@), ty, tv)]);
        return (out, 0);
    }
    let ghost sv = pair_views(secs@);
    let mut skipped: usize = 0;
    let mut k: usize = 0;
    assert(batch_views(out@) =~= Seq::<(Seq<Seq<char>>, MemoryType, Seq<Seq<char>>)>::empty());
    assert(sv.subrange(0, 0) =~= Seq::<(Seq<char>, Seq<char>)>::empty());
    while k < secs.len()
        invariant
            k <= secs@.len(),
            sv == pair_views(secs@),
            tv == string_views(all_tags@),
            skipped <= k,
            (batch_views(out@), skipped as nat) == section_plan(sv.subrange(0, k as int), ty, tv),
        decreases secs@.len() - k,
    {
        let ghost sub = sv.subrange(0, k + 1);
        assert(sub.drop_last() =~= sv.subrange(0, k as int));
        assert(sub.last() == (secs@[k as int].0@, secs@[k as int].1@));
        let title = &secs[k].0;
        let cc = chars_of(secs[k].1.as_str());
        let c = trim_vec(cc.as_slice());
        if !crate::text::utf8_len_at_least(c.as_slice(), 3) {
            skipped = skipped + 1;
        } else {
            let cs = string_of(c.as_slice());
            let full = if title.as_str().is_empty() {
                cs
            } else {
                let a = crate::text::concat(title.as_str(), ": ");
                crate::text::concat(a.as_str(), cs.as_str())
            };
            let slug = section_slug(title.as_str());
            let mut st = copy_strings(&all_tags);
            let ghost slug_v = slug@;
            let add = !title.as_str().is_empty() && !slug.as_str().is_empty() && !holds_string(
                &all_tags,
                &slug,
            );
            if add {
                st.push(slug);
            }
            assert(string_views(st@) =~= (if add {
                tv.push(slug_v)
            } else {
                tv
            }));
            let ghost full_v = full@;
            let mut chunks: Vec<String> = Vec::new();
            chunks.push(full);
            assert(string_views(chunks@) =~= seq![full_v]);
            let ghost before = batch_views(out@);
            let b = IngestBatch { chunks, memory_type: ty, tags: st };
            assert(batch_view(b) == (seq![full_v], ty, if add {
                tv.push(slug_v)
            } else {
                tv
            }));
            out.push(b);
            assert(batch_views(out@) =~= before.push(batch_view(out@[out@.len() - 1])));
        }
        k = k + 1;
    }
    assert(sv.subrange(0, sv.len() as int) =~= sv);
    (out, skipped)
}

/// More data rows than this and a CSV file is summarised instead of stored
/// row by row.
pub const CSV_ROW_THRESHOLD: usize = 200;

/// The lines of a list that are not blank.
pub open spec fn nonblank(ls: Seq<Seq<char>>) -> Seq<Seq<char>>
    decreases ls.len(),
{
    if ls.len() == 0 {
        seq![]
    } else if trim(ls.last()).len() == 0 {
        nonblank(ls.drop_last())
    } else {
        nonblank(ls.drop_last()).push(ls.last())
    }
}

/// The trimmed fields of a line.
pub open spec fn fields(l: Seq<char>, d: char) -> Seq<Seq<char>> {
    split_on(l, d).map_values(|f: Seq<char>| trim(f))
}

/// `header: value` for the first `n` fields of a row that are not empty.
pub open spec fn row_parts(row: Seq<Seq<char>>, headers: Seq<Seq<char>>, n: int) -> Seq<Seq<char>>
    decreases n,
{
    if n <= 0 {
        seq![]
    } else {
        row_parts(row, headers, n - 1) + if row[n - 1].len() > 0 {
            seq![headers[n - 1] + ": "@ + row[n - 1]]
        } else {
            seq![]
        }
    }
}

/// `header=value` for the first `n` fields of a row.
pub open spec fn sample_parts(row: Seq<Seq<char>>, headers: Seq<Seq<char>>, n: int) -> Seq<Seq<char>>
    decreases n,
{
    if n <= 0 {
        seq![]
    } else {
        sample_parts(row, headers, n - 1).push(headers[n - 1] + "="@ + row[n - 1])
    }
}

/// The smaller of two lengths.
pub open spec fn min_len(a: nat, b: nat) -> int {
    if a < b {
        a as int
    } else {
        b as int
    }
}

/// What a CSV file becomes.
pub enum CsvPlan {
    /// No header, or no data row: nothing to store.
    Empty,
    /// Too many rows: one summary of the dataset.
    Summary(String),
    /// One memory per data row.
    Rows(Vec<String>),
}

/// A row as text: its non-empty fields as `header: value`, joined by ` | `.
pub open spec fn row_text(row: Seq<Seq<char>>, headers: Seq<Seq<char>>) -> Seq<char> {
    join(row_parts(row, headers, min_len(row.len(), headers.len())), " | "@)
}

/// The summary of a large CSV file.
pub open spec fn csv_summary(
    file: Seq<char>,
    n: nat,
    headers: Seq<Seq<char>>,
    first: Seq<Seq<char>>,
) -> Seq<char> {
    "CSV dataset "@ + file + ": "@ + crate::numtext::nat_decimal(n) + " rows, columns ["@ + join(
        headers,
        ", "@,
    ) + "]. Sample row: "@ + join(sample_parts(first, headers, min_len(first.len(), headers.len())), ", "@)
}

/// What a CSV text becomes: split on the sniffed delimiter, blank lines
/// ignored, the first line the header; no data row means nothing; more
/// than `CSV_ROW_THRESHOLD` rows means one summary; otherwise one text per
/// row.
pub open spec fn csv_plan_spec(text: Seq<char>, file: Seq<char>) -> (nat, Seq<Seq<char>>) {
    let d = sniff_spec(text);
    let ls = nonblank(lines(text));
    if ls.len() <= 1 {
        (0, seq![])
    } else {
        let headers = fields(ls[0], d);
        let rows = ls.drop_first().map_values(|l: Seq<char>| fields(l, d));
        if rows.len() > CSV_ROW_THRESHOLD {
            (1, seq![csv_summary(file, rows.len(), headers, rows[0])])
        } else {
            (2, rows.map_values(|r: Seq<Seq<char>>| row_text(r, headers)))
        }
    }
}

/// The view of a CSV plan: its kind (0 empty, 1 summary, 2 rows) and texts.
pub open spec fn csv_plan_view(p: CsvPlan) -> (nat, Seq<Seq<char>>) {
    match p {
        CsvPlan::Empty => (0, seq![]),
        CsvPlan::Summary(s) => (1, seq![s@]),
        CsvPlan::Rows(v) => (2, string_views(v@)),
    }
}

/// The trimmed fields of a line.
fn fields_of(l: &[char], d: char) -> (r: Vec<Vec<char>>)
    ensures
        views(r@) == fields(l@, d),
{
    let pieces = split_char(l, d);
    let mut out: Vec<Vec<char>> = Vec::new();
    let mut k: usize = 0;
    while k < pieces.len()
        invariant
            k <= pieces@.len(),
            views(out@) == views(pieces@).subrange(0, k as int).map_values(|f: Seq<char>| trim(f)),
        decreases pieces@.len() - k,
    {
        let t = trim_vec(pieces[k].as_slice());
        let ghost before = views(out@);
        let ghost tv = t@;
        out.push(t);
        assert(views(out@) =~= before.push(tv));
        assert(tv == trim(views(pieces@)[k as int]));
        assert(views(out@) =~= views(pieces@).subrange(0, k + 1).map_values(|f: Seq<char>| trim(f)));
        k = k + 1;
    }
    assert(views(pieces@).subrange(0, pieces@.len() as int) =~= views(pieces@));
    out
}

/// Labelled fields of a row: `header<sep>value` for each of the first
/// fields, skipping empty values when `skip_empty`.
fn labelled(row: &Vec<Vec<char>>, headers: &Vec<Vec<char>>, sep: &[char], skip_empty: bool) -> (r:
    Vec<Vec<char>>)
    requires
        sep@ == ": "@ || sep@ == "="@,
        skip_empty <==> sep@ == ": "@,
    ensures
        skip_empty ==> views(r@) == row_parts(views(row@), views(headers@), min_len(row@.len(), headers@.len())),
        !skip_empty ==> views(r@) == sample_parts(views(row@), views(headers@), min_len(row@.len(), headers@.len())),
{
    let n = if row.len() < headers.len() {
        row.len()
    } else {
        headers.len()
    };
    let mut out: Vec<Vec<char>> = Vec::new();
    let mut k: usize = 0;
    while k < n
        invariant
            k <= n,
            n as int == min_len(row@.len(), headers@.len()),
            sep@ == ": "@ || sep@ == "="@,
            skip_empty <==> sep@ == ": "@,
            skip_empty ==> views(out@) == row_parts(views(row@), views(headers@), k as int),
            !skip_empty ==> views(out@) == sample_parts(views(row@), views(headers@), k as int),
        decreases n - k,
    {
        let ghost before = views(out@);
        let v = &row[k];
        assert(views(row@)[k as int] == v@);
        assert(views(headers@)[k as int] == headers@[k as int]@);
        if skip_empty && v.len() == 0 {
            assert(before + Seq::<Seq<char>>::empty() =~= before);
        } else {
            let mut item = headers[k].clone();
            crate::text::push_all(&mut item, sep);
            crate::text::push_all(&mut item, v.as_slice());
            out.push(item);
            assert(views(out@) =~= before.push(headers@[k as int]@ + sep@ + v@));
            if skip_empty {
                assert(before + seq![headers@[k as int]@ + sep@ + v@] =~= before.push(headers@[k as int]@ + sep@ + v@));
            }
        }
        k = k + 1;
    }
    out
}

/// What a CSV file (its text, and its name for the summary) becomes.
pub fn csv_plan(text: &str, file: &str) -> (r: CsvPlan)
    ensures
        csv_plan_view(r) == csv_plan_spec(text@, file@),
{
    let d = sniff_delimiter(text);
    let c = chars_of(text);
    let all = split_lines(c.as_slice());
    let mut ls: Vec<Vec<char>> = Vec::new();
    let mut k: usize = 0;
    assert(views(all@).subrange(0, 0) =~= Seq::<Seq<char>>::empty());
    while k < all.len()
        invariant
            k <= all@.len(),
            views(ls@) == nonblank(views(all@).subrange(0, k as int)),
        decreases all@.len() - k,
    {
        let ghost sub = views(all@).subrange(0, k + 1);
        assert(sub.drop_last() =~= views(all@).subrange(0, k as int));
        assert(sub.last() == all@[k as int]@);
        let t = trim_vec(all[k].as_slice());
        if t.len() > 0 {
            let ghost before = views(ls@);
            ls.push(all[k].clone());
            assert(views(ls@) =~= before.push(all@[k as int]@));
        }
        k = k + 1;
    }
    assert(views(all@).subrange(0, all@.len() as int) =~= views(all@));
    if ls.len() <= 1 {
        return CsvPlan::Empty;
    }
    let ghost lv = views(ls@);
    let headers = fields_of(ls[0].as_slice(), d);
    let mut rows: Vec<Vec<Vec<char>>> = Vec::new();
    let mut k: usize = 1;
    while k < ls.len()
        invariant
            1 <= k <= ls@.len(),
            lv == views(ls@),
            rows@.len() == k - 1,
            forall|j: int| 0 <= j < rows@.len() ==> views(#[trigger] rows@[j]@) == fields(lv[j + 1], d),
        decreases ls@.len() - k,
    {
        let f = fields_of(ls[k].as_slice(), d);
        rows.push(f);
        k = k + 1;
    }
    let ghost rows_spec = lv.drop_first().map_values(|l: Seq<char>| fields(l, d));
    if rows.len() > CSV_ROW_THRESHOLD {
        let colon = [':', ' '];
        let eq = ['='];
        let comma = [',', ' '];
        proof {
            reveal_strlit(": ");
            reveal_strlit("=");
            reveal_strlit(", ");
        }
        assert(colon@ =~= ": "@);
        assert(eq@ =~= "="@);
        assert(comma@ =~= ", "@);
        assert(views(rows@[0]@) == rows_spec[0]);
        let sample = labelled(&rows[0], &headers, &eq, false);
        let mut s = chars_of("CSV dataset ");
        crate::text::push_all(&mut s, chars_of(file).as_slice());
        crate::text::push_all(&mut s, colon.as_slice());
        crate::text::push_all(&mut s, crate::numtext::format_u64(rows.len() as u64).as_slice());
        crate::text::push_all(&mut s, chars_of(" rows, columns [").as_slice());
        crate::text::push_all(&mut s, join_chars(&headers, &comma).as_slice());
        crate::text::push_all(&mut s, chars_of("]. Sample row: ").as_slice());
        crate::text::push_all(&mut s, join_chars(&sample, &comma).as_slice());
        assert(rows_spec.len() == rows@.len());
        return CsvPlan::Summary(string_of(s.as_slice()));
    }
    let bar = [' ', '|', ' '];
    let colon = [':', ' '];
    proof {
        reveal_strlit(" | ");
        reveal_strlit(": ");
    }
    assert(bar@ =~= " | "@);
    assert(colon@ =~= ": "@);
    let mut out: Vec<String> = Vec::new();
    let mut j: usize = 0;
    while j < rows.len()
        invariant
            j <= rows@.len(),
            rows@.len() == lv.len() - 1,
            lv == views(ls@),
            bar@ == " | "@,
            colon@ == ": "@,
            views(headers@) == fields(lv[0], d),
            forall|i: int| 0 <= i < rows@.len() ==> views(#[trigger] rows@[i]@) == fields(lv[i + 1], d),
            string_views(out@) == rows_spec.subrange(0, j as int).map_values(
                |r: Seq<Seq<char>>| row_text(r, views(headers@)),
            ),
            rows_spec == lv.drop_first().map_values(|l: Seq<char>| fields(l, d)),
        decreases rows@.len() - j,
    {
        let parts = labelled(&rows[j], &headers, &colon, true);
        let t = join_chars(&parts, &bar);
        let ghost before = string_views(out@);
        let st = string_of(t.as_slice());
        let ghost sv = st@;
        out.push(st);
        assert(rows_spec[j as int] == views(rows@[j as int]@));
        assert(string_views(out@) =~= before.push(sv));
        assert(string_views(out@) =~= rows_spec.subrange(0, j + 1).map_values(
            |r: Seq<Seq<char>>| row_text(r, views(headers@)),
        ));
        j = j + 1;
    }
    assert(rows_spec.subrange(0, rows@.len() as int) =~= rows_spec);
    CsvPlan::Rows(out)
}

} // verus!
