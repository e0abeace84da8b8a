//! Persisted coverage baselines.
//!
//! A [`Baseline`] captures the three headline percentages (line,
//! function, region) of a single subject so the next run can diff against
//! it. Baselines are stored under a caller-chosen *scope* — typically a
//! git SHA, a branch name, or `"latest"`. [`JsonFileBaselineStore`] keys
//! them as `<root>/<scope>/<name>.json`, with the scope escaped into a
//! single plain directory name so that different scopes never share a
//! directory; reading and writing those files is done by the caller.
use vstd::prelude::*;
use vstd::string::*;

verus! {

/// Persisted coverage baseline for a single subject. The percentages are
/// binary64 bit patterns (see [`crate::pct`]).
#[derive(Debug, Clone)]
pub struct Baseline {
    /// Subject name. Matches the `name` of the result this baseline was
    /// derived from.
    pub name: String,
    /// Line coverage percentage at baseline time.
    pub line_pct: u64,
    /// Function coverage percentage at baseline time.
    pub function_pct: u64,
    /// Region coverage percentage at baseline time.
    pub region_pct: u64,
}

/// Filesystem layout of JSON baselines: one file per `(scope, name)` at
/// `<root>/<escaped scope>/<name>.json`.
#[derive(Debug, Clone)]
pub struct JsonFileBaselineStore {
    root: String,
}

/// What `Path::new(base).join(part)` gives, as text.
pub uninterp spec fn path_join(base: Seq<char>, part: Seq<char>) -> Seq<char>;

/// Joins two path pieces by `std::path::Path::join`. Claimed: the result
/// depends on the two pieces alone (for the platform the crate is built
/// for). How the pieces are combined — a separator, or `part` replacing
/// `base` when it is absolute — is left to the platform and not stated.
#[verifier::external_body]
fn join_path(base: &str, part: &str) -> (r: String)
    ensures
        r@ == path_join(base@, part@),
{
    std::path::Path::new(base).join(part).to_string_lossy().into_owned()
}

/// How one character of a scope appears in its directory name: `%`,
/// `/`, `\\`, `:` and `.` as `%` and their two hex digits, every other
/// character as itself.
pub open spec fn escape_char(c: char) -> Seq<char> {
    if c == '%' {
        seq!['%', '2', '5']
    } else if c == '/' {
        seq!['%', '2', 'F']
    } else if c == '\\' {
        seq!['%', '5', 'C']
    } else if c == ':' {
        seq!['%', '3', 'A']
    } else if c == '.' {
        seq!['%', '2', 'E']
    } else {
        seq![c]
    }
}

/// The directory name of a scope: each character escaped in turn.
pub open spec fn escape_scope(scope: Seq<char>) -> Seq<char>
    decreases scope.len(),
{
    if scope.len() == 0 {
        seq![]
    } else {
        escape_char(scope[0]) + escape_scope(scope.drop_first())
    }
}

/// A character that could make a directory name more than one plain
/// path piece: a separator, a drive or stream marker, or the dot of `.`
/// and `..`.
pub open spec fn is_path_special(c: char) -> bool {
    c == '/' || c == '\\' || c == ':' || c == '.'
}

/// Different scopes get different directory names, so two baselines of
/// one name under different scopes never share a directory.
pub proof fn lemma_escape_scope_injective(a: Seq<char>, b: Seq<char>)
    requires
        escape_scope(a) == escape_scope(b),
    ensures
        a == b,
    decreases a.len(),
{
    if a.len() == 0 {
        if b.len() > 0 {
            assert(escape_scope(b).len() > 0);
        }
        assert(b.len() == 0);
        assert(a =~= b);
    } else {
        if b.len() == 0 {
            assert(escape_scope(a).len() > 0);
        }
        let ea = escape_char(a[0]);
        let eb = escape_char(b[0]);
        let ra = escape_scope(a.drop_first());
        let rb = escape_scope(b.drop_first());
        assert(escape_scope(a) == ea + ra);
        assert(escape_scope(b) == eb + rb);
        assert((ea + ra)[0] == ea[0]);
        assert((eb + rb)[0] == eb[0]);
        if ea.len() == 1 && eb.len() == 1 {
            assert(ra =~= (ea + ra).drop_first());
            assert(rb =~= (eb + rb).drop_first());
        } else if ea.len() == 3 && eb.len() == 3 {
            assert((ea + ra)[1] == ea[1] && (eb + rb)[1] == eb[1]);
            assert((ea + ra)[2] == ea[2] && (eb + rb)[2] == eb[2]);
            assert(ra =~= (ea + ra).subrange(3, (ea + ra).len() as int));
            assert(rb =~= (eb + rb).subrange(3, (eb + rb).len() as int));
        }
        assert(a[0] == b[0]);
        lemma_escape_scope_injective(a.drop_first(), b.drop_first());
        assert(a.len() == b.len());
        assert forall|i: int| 0 <= i < a.len() implies a[i] == b[i] by {
            if i > 0 {
                assert(a[i] == a.drop_first()[i - 1]);
                assert(b[i] == b.drop_first()[i - 1]);
            }
        }
        assert(a =~= b);
    }
}

/// An escaped scope holds no separator, drive marker or dot: it is one
/// plain path piece, never `.` or `..`, never absolute.
pub proof fn lemma_escape_scope_is_plain(scope: Seq<char>)
    ensures
        forall|i: int|
            0 <= i < escape_scope(scope).len() ==> !is_path_special(#[trigger] escape_scope(scope)[i]),
    decreases scope.len(),
{
    if scope.len() > 0 {
        lemma_escape_scope_is_plain(scope.drop_first());
        let e = escape_char(scope[0]);
        let r = escape_scope(scope.drop_first());
        assert forall|i: int| 0 <= i < (e + r).len() implies !is_path_special(#[trigger] (e + r)[i]) by {
            if i >= e.len() {
                assert((e + r)[i] == r[i - e.len()]);
            }
        }
    }
}

/// Escapes a scope into its directory name.
fn escape_scope_exec(scope: &str) -> (e: String)
    ensures
        e@ == escape_scope(scope@),
{
    let n = scope.unicode_len();
    let mut out = String::new();
    let mut i: usize = 0;
    assert(scope@.skip(0) =~= scope@);
    assert(out@ + escape_scope(scope@) =~= escape_scope(scope@));
    while i < n
        invariant
            n == scope@.len(),
            0 <= i <= n,
            escape_scope(scope@) == out@ + escape_scope(scope@.skip(i as int)),
        decreases n - i,
    {
        let c = scope.get_char(i);
        proof {
            let rest = scope@.skip(i as int);
            assert(rest[0] == c);
            assert(rest.drop_first() =~= scope@.skip(i + 1));
        }
        if c == '%' {
            out.append("%25");
            proof { reveal_strlit("%25"); }
        } else if c == '/' {
            out.append("%2F");
            proof { reveal_strlit("%2F"); }
        } else if c == '\\' {
            out.append("%5C");
            proof { reveal_strlit("%5C"); }
        } else if c == ':' {
            out.append("%3A");
            proof { reveal_strlit("%3A"); }
        } else if c == '.' {
            out.append("%2E");
            proof { reveal_strlit("%2E"); }
        } else {
            let piece = scope.substring_char(i, i + 1);
            assert(piece@ =~= seq![c]);
            out.append(piece);
        }
        i = i + 1;
    }
    proof {
        assert(scope@.skip(n as int) =~= Seq::<char>::empty());
        assert(out@ =~= out@ + Seq::<char>::empty());
    }
    out
}

/// The file name a baseline named `name` is stored under.
pub open spec fn baseline_file_name(name: Seq<char>) -> Seq<char> {
    name + ".json"@
}

impl JsonFileBaselineStore {
    /// Build a store rooted at `root`. Subdirectories per scope are
    /// created lazily on save.
    pub fn new(root: &str) -> (s: Self)
        ensures
            s.root() == root@,
    {
        JsonFileBaselineStore { root: String::from_str(root) }
    }

    /// The directory the store is rooted at.
    pub closed spec fn root(&self) -> Seq<char> {
        self.root@
    }

    /// The directory the store is rooted at.
    pub fn root_dir(&self) -> (r: &str)
        ensures
            r@ == self.root(),
    {
        self.root.as_str()
    }

    /// Path that would be used to persist `(scope, name)`:
    /// `<root>/<scope>/<name>.json`, the scope escaped into one plain
    /// directory name (`main` stays `main`; `feature/x` becomes
    /// `feature%2Fx`), so different scopes never share a directory.
    pub fn path_for(&self, scope: &str, name: &str) -> (p: String)
        ensures
            p@ == path_join(
                path_join(self.root(), escape_scope(scope@)),
                baseline_file_name(name@),
            ),
    {
        let dir_name = escape_scope_exec(scope);
        let dir = join_path(self.root.as_str(), dir_name.as_str());
        let file = String::from_str(name).concat(".json");
        join_path(dir.as_str(), file.as_str())
    }
}

} // verus!
