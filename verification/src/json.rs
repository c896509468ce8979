//! JSON imports: a parsed JSON document as plain values, and what a JSON file
//! of memories becomes — a list of records, or an object that wraps one under
//! `memories` (or else `records`); each record either a string, or an object
//! with `content`, and optionally `type`, `tags` and `salience`.
use vstd::prelude::*;
use crate::ingest::{copy_strings, memory_type_named, memory_type_spec};
use crate::text::{chars_of, string_views, utf8_len_at_least};
use crate::types::MemoryType;

verus! {

/// A parsed JSON value. A number keeps its text; an object keeps its
/// members in order (the keys of a parsed document are distinct).
pub enum JsonValue {
    Null,
    Bool(bool),
    Number(String),
    Str(String),
    Array(Vec<JsonValue>),
    Object(Vec<(String, JsonValue)>),
}

/// The member of `fields` named `key` (the first one, should keys repeat).
pub open spec fn field_spec(fields: Seq<(String, JsonValue)>, key: Seq<char>) -> Option<JsonValue>
    decreases fields.len(),
{
    if fields.len() == 0 {
        None
    } else if fields[0].0@ == key {
        Some(fields[0].1)
    } else {
        field_spec(fields.drop_first(), key)
    }
}

/// The member of an object named `key`.
pub fn field<'a>(fields: &'a Vec<(String, JsonValue)>, key: &str) -> (r: Option<&'a JsonValue>)
    ensures
        match r {
            Some(v) => field_spec(fields@, key@) == Some(*v),
            None => field_spec(fields@, key@) is None,
        },
{
    let k = chars_of(key);
    let mut i: usize = 0;
    assert(fields@.subrange(0, fields@.len() as int) =~= fields@);
    while i < fields.len()
        invariant
            i <= fields@.len(),
            k@ == key@,
            field_spec(fields@, key@) == field_spec(fields@.subrange(i as int, fields@.len() as int), key@),
        decreases fields@.len() - i,
    {
        let ghost rest = fields@.subrange(i as int, fields@.len() as int);
        assert(rest.drop_first() =~= fields@.subrange(i + 1, fields@.len() as int));
        let name = chars_of(fields[i].0.as_str());
        if crate::text::seq_equal(name.as_slice(), k.as_slice()) {
            return Some(&fields[i].1);
        }
        i = i + 1;
    }
    assert(fields@.subrange(i as int, fields@.len() as int).len() == 0);
    None
}

/// The memory type a JSON value names as `serde` reads a unit-only enum:
/// its variant name as a string, or an object with that name as its one key
/// and `null` as the value.
pub open spec fn json_memory_type(v: JsonValue) -> Option<MemoryType> {
    match v {
        JsonValue::Str(s) => memory_type_spec(s@),
        JsonValue::Object(o) => if o@.len() == 1 && o@[0].1 is Null {
            memory_type_spec(o@[0].0@)
        } else {
            None
        },
        _ => None,
    }
}

fn memory_type_of(v: &JsonValue) -> (r: Option<MemoryType>)
    ensures
        r == json_memory_type(*v),
{
    match v {
        JsonValue::Str(s) => memory_type_named(s.as_str()),
        JsonValue::Object(o) => {
            if o.len() == 1 {
                match &o[0].1 {
                    JsonValue::Null => memory_type_named(o[0].0.as_str()),
                    _ => None,
                }
            } else {
                None
            }
        },
        _ => None,
    }
}

/// The strings among the items of `items`, in order.
pub open spec fn strings_in(items: Seq<JsonValue>) -> Seq<Seq<char>>
    decreases items.len(),
{
    if items.len() == 0 {
        Seq::empty()
    } else {
        let rest = strings_in(items.drop_last());
        match items.last() {
            JsonValue::Str(s) => rest.push(s@),
            _ => rest,
        }
    }
}

/// The tags a record lists: the strings of its `tags` array.
pub open spec fn record_tags(tags: Option<JsonValue>) -> Seq<Seq<char>> {
    match tags {
        Some(JsonValue::Array(a)) => strings_in(a@),
        _ => Seq::empty(),
    }
}

pub fn tags_of(tags: Option<&JsonValue>) -> (r: Vec<String>)
    ensures
        string_views(r@) == record_tags(
            match tags {
                Some(v) => Some(*v),
                None => None,
            },
        ),
{
    let mut out: Vec<String> = Vec::new();
    if let Some(JsonValue::Array(a)) = tags {
        let mut k: usize = 0;
        while k < a.len()
            invariant
                k <= a@.len(),
                string_views(out@) == strings_in(a@.subrange(0, k as int)),
            decreases a@.len() - k,
        {
            let ghost before = string_views(out@);
            assert(a@.subrange(0, k + 1).drop_last() =~= a@.subrange(0, k as int));
            if let JsonValue::Str(s) = &a[k] {
                out.push(s.clone());
                assert(string_views(out@) =~= before.push(s@));
            }
            k = k + 1;
        }
        assert(a@.subrange(0, a@.len() as int) =~= a@);
    }
    out
}

/// A tool argument read as a list of strings: the strings of an array, a
/// lone string as a list of one, and nothing for any other value.
pub open spec fn str_list_spec(v: JsonValue) -> Seq<Seq<char>> {
    match v {
        JsonValue::Array(a) => strings_in(a@),
        JsonValue::Str(s) => seq![s@],
        _ => Seq::empty(),
    }
}

/// Read a tool argument that may be a list of strings or a single string.
pub fn coerce_str_list(v: &JsonValue) -> (r: Vec<String>)
    ensures
        string_views(r@) == str_list_spec(*v),
{
    match v {
        JsonValue::Str(s) => {
            let mut out: Vec<String> = Vec::new();
            out.push(s.clone());
            assert(string_views(out@) =~= seq![s@]);
            out
        },
        _ => tags_of(Some(v)),
    }
}

/// What one record of a JSON import becomes.
pub enum JsonStep {
    /// Remember `content` with these tags, type and salience (the text of
    /// the `salience` number, when there is one).
    Store { content: String, memory_type: Option<MemoryType>, tags: Vec<String>, salience: Option<String> },
    /// An object whose `content` text is under three bytes: skipped.
    TooShort,
    /// Neither a string nor an object: skipped, as an error.
    NotARecord,
}

/// A `JsonStep` as plain values.
pub enum JsonStepView {
    Store(Seq<char>, Option<MemoryType>, Seq<Seq<char>>, Option<Seq<char>>),
    TooShort,
    NotARecord,
}

impl View for JsonStep {
    type V = JsonStepView;

    open spec fn view(&self) -> JsonStepView {
        match self {
            JsonStep::Store { content, memory_type, tags, salience } => JsonStepView::Store(
                content@,
                *memory_type,
                string_views(tags@),
                match salience {
                    Some(t) => Some(t@),
                    None => None,
                },
            ),
            JsonStep::TooShort => JsonStepView::TooShort,
            JsonStep::NotARecord => JsonStepView::NotARecord,
        }
    }
}

/// The text of a record object's `content` (empty when it has none).
pub open spec fn content_text(fields: Seq<(String, JsonValue)>) -> Seq<char> {
    match field_spec(fields, "content"@) {
        Some(JsonValue::Str(s)) => s@,
        _ => Seq::empty(),
    }
}

/// The text of a record object's `salience`, when it is a number.
pub open spec fn salience_text(fields: Seq<(String, JsonValue)>) -> Option<Seq<char>> {
    match field_spec(fields, "salience"@) {
        Some(JsonValue::Number(t)) => Some(t@),
        _ => None,
    }
}

/// The shortest `content`, in bytes, that a record object may have.
pub const MIN_RECORD_BYTES: usize = 3;

/// What one record becomes, with `base` the tags every memory gets.
pub open spec fn record_step(rec: JsonValue, base: Seq<Seq<char>>) -> JsonStepView {
    match rec {
        JsonValue::Str(s) => JsonStepView::Store(s@, None, base, None),
        JsonValue::Object(o) => if vstd::utf8::encode_utf8(content_text(o@)).len() < MIN_RECORD_BYTES {
            JsonStepView::TooShort
        } else {
            JsonStepView::Store(
                content_text(o@),
                match field_spec(o@, "type"@) {
                    Some(t) => json_memory_type(t),
                    None => None,
                },
                base + record_tags(field_spec(o@, "tags"@)),
                salience_text(o@),
            )
        },
        _ => JsonStepView::NotARecord,
    }
}

/// What one record becomes.
pub fn plan_record(rec: &JsonValue, base: &Vec<String>) -> (r: JsonStep)
    ensures
        r@ == record_step(*rec, string_views(base@)),
{
    match rec {
        JsonValue::Str(s) => JsonStep::Store {
            content: s.clone(),
            memory_type: None,
            tags: copy_strings(base),
            salience: None,
        },
        JsonValue::Object(o) => {
            let content = match field(o, "content") {
                Some(JsonValue::Str(s)) => s.clone(),
                _ => String::new(),
            };
            proof {
                reveal_strlit("content");
            }
            assert(content@ == content_text(o@));
            let cc = chars_of(content.as_str());
            if !utf8_len_at_least(cc.as_slice(), MIN_RECORD_BYTES) {
                return JsonStep::TooShort;
            }
            let memory_type = match field(o, "type") {
                Some(t) => memory_type_of(t),
                None => None,
            };
            let mut tags = copy_strings(base);
            let mut own = tags_of(field(o, "tags"));
            let ghost b = string_views(tags@);
            let ghost t = string_views(own@);
            tags.append(&mut own);
            assert(string_views(tags@) =~= b + t);
            let salience = match field(o, "salience") {
                Some(JsonValue::Number(t)) => Some(t.clone()),
                _ => None,
            };
            JsonStep::Store { content, memory_type, tags, salience }
        },
        _ => JsonStep::NotARecord,
    }
}

/// The records of a document: the document itself when it is a list; for
/// an object, the list under `memories` (or, when there is no such member,
/// under `records`), and none when that member is missing or not a list.
/// Anything else is no import at all.
pub open spec fn root_records(doc: JsonValue) -> Option<Seq<JsonValue>> {
    match doc {
        JsonValue::Array(a) => Some(a@),
        JsonValue::Object(o) => {
            let chosen = match field_spec(o@, "memories"@) {
                Some(v) => Some(v),
                None => field_spec(o@, "records"@),
            };
            match chosen {
                Some(JsonValue::Array(a)) => Some(a@),
                _ => Some(Seq::empty()),
            }
        },
        _ => None,
    }
}

/// A JSON document that is neither a list nor an object.
pub enum JsonRootError {
    NotListOrDict,
}

/// What a JSON document of memories becomes: one step per record, in order,
/// with `base` the tags every memory gets; an error when the document is
/// neither a list nor an object.
pub fn json_plan(doc: &JsonValue, base: &Vec<String>) -> (r: Result<Vec<JsonStep>, JsonRootError>)
    ensures
        match root_records(*doc) {
            None => r is Err,
            Some(recs) => r is Ok && r->Ok_0@.len() == recs.len() && forall|i: int|
                0 <= i < recs.len() ==> (#[trigger] r->Ok_0@[i])@ == record_step(recs[i], string_views(base@)),
        },
{
    let empty: Vec<JsonValue> = Vec::new();
    let recs: &Vec<JsonValue> = match doc {
        JsonValue::Array(a) => a,
        JsonValue::Object(o) => {
            let chosen = match field(o, "memories") {
                Some(v) => Some(v),
                None => field(o, "records"),
            };
            proof {
                reveal_strlit("memories");
                reveal_strlit("records");
            }
            match chosen {
                Some(JsonValue::Array(a)) => a,
                _ => &empty,
            }
        },
        _ => return Err(JsonRootError::NotListOrDict),
    };
    assert(root_records(*doc) == Some(recs@));
    let mut out: Vec<JsonStep> = Vec::new();
    let mut i: usize = 0;
    while i < recs.len()
        invariant
            i <= recs@.len(),
            out@.len() == i,
            forall|j: int| 0 <= j < i ==> (#[trigger] out@[j])@ == record_step(recs@[j], string_views(base@)),
        decreases recs@.len() - i,
    {
        let step = plan_record(&recs[i], base);
        out.push(step);
        i = i + 1;
    }
    Ok(out)
}


/// An object member is absent exactly when no member carries its name.
proof fn lemma_field_none(fields: Seq<(String, JsonValue)>, key: Seq<char>)
    requires
        forall|j: int| 0 <= j < fields.len() ==> (#[trigger] fields[j]).0@ != key,
    ensures
        field_spec(fields, key) is None,
    decreases fields.len(),
{
    if fields.len() > 0 {
        assert forall|j: int| 0 <= j < fields.drop_first().len() implies (
        #[trigger] fields.drop_first()[j]).0@ != key by {
            assert(fields.drop_first()[j] == fields[j + 1]);
        }
        lemma_field_none(fields.drop_first(), key);
    }
}

/// Replacing the first member named `key` changes what `key` names and
/// nothing else.
proof fn lemma_field_update_first(
    fields: Seq<(String, JsonValue)>,
    i: int,
    member: (String, JsonValue),
    k: Seq<char>,
)
    requires
        0 <= i < fields.len(),
        fields[i].0@ == member.0@,
        forall|j: int| 0 <= j < i ==> (#[trigger] fields[j]).0@ != member.0@,
    ensures
        field_spec(fields.update(i, member), k) == if k == member.0@ {
            Some(member.1)
        } else {
            field_spec(fields, k)
        },
    decreases i,
{
    if i > 0 {
        assert(fields.update(i, member).drop_first() =~= fields.drop_first().update(i - 1, member));
        assert forall|j: int| 0 <= j < i - 1 implies (#[trigger] fields.drop_first()[j]).0@
            != member.0@ by {
            assert(fields.drop_first()[j] == fields[j + 1]);
        }
        lemma_field_update_first(fields.drop_first(), i - 1, member, k);
    } else {
        assert(fields.update(i, member).drop_first() =~= fields.drop_first());
    }
}

/// Appending a member whose name is absent adds that name and changes
/// nothing else.
proof fn lemma_field_push(fields: Seq<(String, JsonValue)>, member: (String, JsonValue), k: Seq<char>)
    requires
        field_spec(fields, member.0@) is None,
    ensures
        field_spec(fields.push(member), k) == if k == member.0@ {
            Some(member.1)
        } else {
            field_spec(fields, k)
        },
    decreases fields.len(),
{
    if fields.len() > 0 {
        assert(fields.push(member).drop_first() =~= fields.drop_first().push(member));
        lemma_field_push(fields.drop_first(), member, k);
    } else {
        assert(fields.push(member).drop_first() =~= fields);
    }
}

/// Set the member `key` of an object's members to `value`, as a map insert:
/// the first member of that name is replaced in place, or the member is
/// appended when there is none.
pub fn set_member(fields: &mut Vec<(String, JsonValue)>, key: String, value: JsonValue)
    ensures
        field_spec(final(fields)@, key@) == Some(value),
        forall|k: Seq<char>| k != key@ ==> field_spec(final(fields)@, k) == field_spec(
            old(fields)@,
            k,
        ),
{
    let ghost key_v = key@;
    let k = chars_of(key.as_str());
    let mut i: usize = 0;
    while i < fields.len()
        invariant
            i <= fields@.len(),
            k@ == key_v,
            key@ == key_v,
            fields@ == old(fields)@,
            forall|j: int| 0 <= j < i ==> (#[trigger] fields@[j]).0@ != key_v,
        decreases fields@.len() - i,
    {
        let name = chars_of(fields[i].0.as_str());
        if crate::text::seq_equal(name.as_slice(), k.as_slice()) {
            let ghost before = fields@;
            let ghost member = (key, value);
            assert(name@ == fields@[i as int].0@);
            assert(before[i as int].0@ == member.0@);
            let _old = fields.remove(i);
            fields.insert(i, (key, value));
            proof {
                assert(fields@ =~= before.update(i as int, member));
                assert forall|kk: Seq<char>| true implies field_spec(fields@, kk) == if kk == key_v {
                    Some(value)
                } else {
                    field_spec(before, kk)
                } by {
                    lemma_field_update_first(before, i as int, member, kk);
                }
            }
            return;
        }
        i = i + 1;
    }
    proof {
        lemma_field_none(fields@, key_v);
    }
    let ghost before = fields@;
    let ghost member = (key, value);
    fields.push((key, value));
    proof {
        assert forall|kk: Seq<char>| true implies field_spec(fields@, kk) == if kk == key_v {
            Some(value)
        } else {
            field_spec(before, kk)
        } by {
            lemma_field_push(before, member, kk);
        }
    }
}

/// Strings as JSON string values, in order.
pub fn string_items(names: Vec<String>) -> (r: Vec<JsonValue>)
    ensures
        r@.len() == names@.len(),
        forall|j: int| 0 <= j < r@.len() ==> #[trigger] r@[j] == JsonValue::Str(names@[j]),
{
    let ghost orig = names@;
    let mut rest = names;
    let mut out: Vec<JsonValue> = Vec::new();
    while rest.len() > 0
        invariant
            out@.len() + rest@.len() == orig.len(),
            rest@ == orig.subrange(out@.len() as int, orig.len() as int),
            forall|j: int| 0 <= j < out@.len() ==> #[trigger] out@[j] == JsonValue::Str(orig[j]),
        decreases rest@.len(),
    {
        let ghost n = out@.len();
        let s = rest.remove(0);
        assert(s == orig[n as int]);
        out.push(JsonValue::Str(s));
        assert(rest@ =~= orig.subrange(out@.len() as int, orig.len() as int));
    }
    out
}

/// The strings of a list of string values are those strings.
pub proof fn lemma_strings_in_items(items: Seq<JsonValue>, names: Seq<String>)
    requires
        items.len() == names.len(),
        forall|j: int| 0 <= j < items.len() ==> #[trigger] items[j] == JsonValue::Str(names[j]),
    ensures
        strings_in(items) == string_views(names),
    decreases items.len(),
{
    if items.len() > 0 {
        lemma_strings_in_items(items.drop_last(), names.drop_last());
        assert(items.last() == JsonValue::Str(names.last()));
        assert(string_views(names) =~= string_views(names.drop_last()).push(names.last()@));
    } else {
        assert(string_views(names) =~= Seq::<Seq<char>>::empty());
    }
}

} // verus!
