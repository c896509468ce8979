//! Paths and tunables.
use vstd::prelude::*;

verus! {

/// Default embedding model name.
pub const EMBED_MODEL: &'static str = "BAAI/bge-small-en-v1.5";

/// Dimension of the default embedding model.
pub const EMBEDDING_DIM: usize = 384;

/// Number of ACT-R access timestamps kept per memory.
pub const MAX_STORED_TIMESTAMPS: usize = 50;

/// Hops of spreading activation.
pub const SPREADING_MAX_HOPS: u8 = 2;

/// Nodes newly activated by one spread, at most.
pub const SPREADING_MAX_ACTIVATED: usize = 50;

/// LLM calls one dream cycle may make, at most.
pub const DREAM_MAX_LLM_CALLS: usize = 20;

/// `Path::join` of a relative `name` onto `base`: a separator is inserted
/// unless `base` is empty or already ends in one.
pub open spec fn join_path(base: Seq<char>, name: Seq<char>) -> Seq<char> {
    if base.len() > 0 && base.last() != '/' {
        base + seq!['/'] + name
    } else {
        base + name
    }
}

/// The data directory: `$CEREBRO_DATA_DIR` when set, else
/// `<home>/.cerebro-cortex` with `/tmp` standing in for a missing home.
pub open spec fn data_dir_spec(env_dir: Option<Seq<char>>, home: Option<Seq<char>>) -> Seq<
    char,
> {
    match env_dir {
        Some(d) => d,
        None => join_path(
            match home {
                Some(h) => h,
                None => "/tmp"@,
            },
            ".cerebro-cortex"@,
        ),
    }
}

/// `Path::join` of a relative file name onto a directory.
pub fn join(base: &str, name: &str) -> (r: String)
    ensures
        r@ == join_path(base@, name@),
{
    let b = crate::text::chars_of(base);
    let n = crate::text::chars_of(name);
    let mut out = b.clone();
    if b.len() > 0 && b[b.len() - 1] != '/' {
        out.push('/');
    }
    let mut i: usize = 0;
    let ghost start = out@;
    while i < n.len()
        invariant
            i <= n.len(),
            n@ == name@,
            out@ == start + n@.subrange(0, i as int),
        decreases n.len() - i,
    {
        out.push(n[i]);
        i = i + 1;
        assert(out@ =~= start + n@.subrange(0, i as int));
    }
    assert(n@.subrange(0, n.len() as int) =~= n@);
    assert(b@ == base@);
    proof {
        if b.len() > 0 && b@.last() != '/' {
            assert(start =~= base@ + seq!['/']);
        } else {
            assert(start =~= base@);
        }
    }
    crate::text::string_of(out.as_slice())
}

/// The data directory, from the value of `CEREBRO_DATA_DIR` (if set) and the
/// user's home directory (if known).
pub fn data_dir(env_dir: Option<&str>, home: Option<&str>) -> (r: String)
    ensures
        r@ == data_dir_spec(
            match env_dir {
                Some(d) => Some(d@),
                None => None,
            },
            match home {
                Some(h) => Some(h@),
                None => None,
            },
        ),
{
    match env_dir {
        Some(d) => String::from_str(d),
        None => match home {
            Some(h) => join(h, ".cerebro-cortex"),
            None => join("/tmp", ".cerebro-cortex"),
        },
    }
}

/// The SQLite database inside the data directory.
pub fn sqlite_db(data_dir: &str) -> (r: String)
    ensures
        r@ == join_path(data_dir@, "cerebro.db"@),
{
    join(data_dir, "cerebro.db")
}

/// The export directory inside the data directory.
pub fn export_dir(data_dir: &str) -> (r: String)
    ensures
        r@ == join_path(data_dir@, "exports"@),
{
    join(data_dir, "exports")
}

/// Runtime configuration.
pub struct Config {
    pub db_path: String,
    pub anthropic_key: Option<String>,
    pub embed_model: String,
}

impl Config {
    /// The configuration for a data directory, an optional API key and an
    /// optional embedding model override (`CEREBRO_EMBED_MODEL`).
    pub fn from_parts(data_dir: &str, anthropic_key: Option<String>, embed_model: Option<String>) -> (r:
        Self)
        ensures
            r.db_path@ == join_path(data_dir@, "cerebro.db"@),
            r.anthropic_key == anthropic_key,
            r.embed_model@ == match embed_model {
                Some(m) => m@,
                None => EMBED_MODEL@,
            },
    {
        let model = match embed_model {
            Some(m) => m,
            None => String::from_str(EMBED_MODEL),
        };
        Config { db_path: sqlite_db(data_dir), anthropic_key, embed_model: model }
    }
}

} // verus!
