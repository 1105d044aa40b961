use vstd::prelude::*;

use dashmap::DashMap;

use crate::types::{PathFormatError, SuPath};

verus! {

#[verifier::external_type_specification]
#[verifier::external_body]
#[verifier::reject_recursive_types(K)]
#[verifier::reject_recursive_types(V)]
#[verifier::reject_recursive_types(S)]
pub struct ExDashMap<K, V, S>(DashMap<K, V, S>);

/// The pattern that path strings must match.
pub const PATH_PATTERN: &'static str = "^(/(\\.*[a-z0-9-_]+\\.*)+)+$";

/// A character that may stand in a path segment besides `.`.
pub open spec fn path_char(c: char) -> bool {
    ('a' <= c && c <= 'z') || ('0' <= c && c <= '9') || c == '-' || c == '_'
}

/// `s` is a run of segments, each `/` and then characters of `path_char` or
/// `.`, at least one of them of `path_char`; `seen` says whether the
/// segment that `s` continues already has one.
pub open spec fn segments(s: Seq<char>, seen: bool) -> bool
    decreases s.len(),
{
    if s.len() == 0 {
        seen
    } else if s[0] == '/' {
        seen && segments(s.drop_first(), false)
    } else if path_char(s[0]) {
        segments(s.drop_first(), true)
    } else if s[0] == '.' {
        segments(s.drop_first(), seen)
    } else {
        false
    }
}

/// The strings that `PATH_PATTERN` matches: one or more segments, each a
/// `/` followed by lower-case letters, digits, `-`, `_` and `.`, with at
/// least one character that is not `.`.
pub open spec fn is_path_string(s: Seq<char>) -> bool {
    s.len() > 0 && s[0] == '/' && segments(s.drop_first(), false)
}

/// `segments` of the part of `s` from index `i` on, read by index.
pub open spec fn segments_from(s: Seq<char>, i: int, seen: bool) -> bool
    decreases s.len() - i,
{
    if i >= s.len() {
        seen
    } else if s[i] == '/' {
        seen && segments_from(s, i + 1, false)
    } else if path_char(s[i]) {
        segments_from(s, i + 1, true)
    } else if s[i] == '.' {
        segments_from(s, i + 1, seen)
    } else {
        false
    }
}

/// Reading by index agrees with reading the rest of the string.
pub proof fn lemma_segments_from(s: Seq<char>, i: int, seen: bool)
    requires
        0 <= i <= s.len(),
    ensures
        segments_from(s, i, seen) == segments(s.subrange(i, s.len() as int), seen),
    decreases s.len() - i,
{
    let t = s.subrange(i, s.len() as int);
    if i < s.len() {
        assert(t[0] == s[i]);
        assert(t.drop_first() =~= s.subrange(i + 1, s.len() as int));
        lemma_segments_from(s, i + 1, false);
        lemma_segments_from(s, i + 1, true);
        lemma_segments_from(s, i + 1, seen);
    } else {
        assert(t.len() == 0);
    }
}

/// A string that starts with `/` and reads as segments from index 1 is a
/// path string.
pub proof fn lemma_path_string_by_index(s: Seq<char>)
    requires
        s.len() > 0,
        s[0] == '/',
        segments_from(s, 1, false),
    ensures
        is_path_string(s),
{
    lemma_segments_from(s, 1, false);
    assert(s.subrange(1, s.len() as int) =~= s.drop_first());
}

/// `a` comes before `b` in the character order, comparing from index `i`
/// on (the earlier of two strings that agree up to the end of one is the
/// shorter).
pub open spec fn lex_less_from(a: Seq<char>, b: Seq<char>, i: int) -> bool
    decreases a.len() - i,
{
    if i >= a.len() {
        i < b.len()
    } else if i >= b.len() {
        false
    } else if (a[i] as u32) < (b[i] as u32) {
        true
    } else if a[i] == b[i] {
        lex_less_from(a, b, i + 1)
    } else {
        false
    }
}

/// No string comes before itself.
pub proof fn lemma_lex_irreflexive(a: Seq<char>, i: int)
    requires
        0 <= i,
    ensures
        !lex_less_from(a, a, i),
    decreases a.len() - i,
{
    if i < a.len() {
        lemma_lex_irreflexive(a, i + 1);
    }
}

/// The character order is transitive.
pub proof fn lemma_lex_transitive(a: Seq<char>, b: Seq<char>, c: Seq<char>, i: int)
    requires
        0 <= i,
        lex_less_from(a, b, i),
        lex_less_from(b, c, i),
    ensures
        lex_less_from(a, c, i),
    decreases a.len() - i,
{
    if i < a.len() && i < b.len() && i < c.len() && a[i] == b[i] && b[i] == c[i] {
        lemma_lex_transitive(a, b, c, i + 1);
    }
}

/// Strings in strictly increasing character order are all different.
pub proof fn lemma_sorted_distinct(s: Seq<Seq<char>>)
    requires
        forall|k: int| 0 <= k < s.len() - 1 ==> lex_less_from(#[trigger] s[k], s[k + 1], 0),
    ensures
        s.no_duplicates(),
{
    assert forall|i: int, j: int| 0 <= i < j < s.len() implies lex_less_from(s[i], s[j], 0) by {
        lemma_sorted_chain(s, i, j);
    }
    assert forall|i: int, j: int| 0 <= i < s.len() && 0 <= j < s.len() && i != j implies s[i] != s[j] by {
        if i < j {
            assert(lex_less_from(s[i], s[j], 0));
        } else {
            assert(lex_less_from(s[j], s[i], 0));
        }
        lemma_lex_irreflexive(s[i], 0);
    }
}

proof fn lemma_sorted_chain(s: Seq<Seq<char>>, i: int, j: int)
    requires
        forall|k: int| 0 <= k < s.len() - 1 ==> lex_less_from(#[trigger] s[k], s[k + 1], 0),
        0 <= i < j < s.len(),
    ensures
        lex_less_from(s[i], s[j], 0),
    decreases j - i,
{
    if j > i + 1 {
        lemma_sorted_chain(s, i, j - 1);
        assert(lex_less_from(s[j - 1], s[j], 0));
        lemma_lex_transitive(s[i], s[j - 1], s[j], 0);
    }
}

proof fn lemma_segments_split(t: Seq<char>, seen: bool, j: int)
    requires
        segments(t, seen),
        0 <= j < t.len(),
        t[j] == '/',
    ensures
        segments(t.subrange(0, j), seen),
        segments(t.subrange(j + 1, t.len() as int), false),
    decreases j,
{
    if j == 0 {
        assert(t.subrange(0, 0) =~= Seq::<char>::empty());
        assert(t.subrange(1, t.len() as int) =~= t.drop_first());
    } else {
        let t1 = t.drop_first();
        let seen1 = if t[0] == '/' {
            false
        } else if path_char(t[0]) {
            true
        } else {
            seen
        };
        lemma_segments_split(t1, seen1, j - 1);
        assert(t.subrange(0, j).drop_first() =~= t1.subrange(0, j - 1));
        assert(t.subrange(j + 1, t.len() as int) =~= t1.subrange(j, t1.len() as int));
    }
}

/// Cutting a path string before one of its `/` (other than the first)
/// leaves two path strings.
pub proof fn lemma_path_split(s: Seq<char>, k: int)
    requires
        is_path_string(s),
        0 < k < s.len(),
        s[k] == '/',
    ensures
        is_path_string(s.subrange(0, k)),
        is_path_string(s.subrange(k, s.len() as int)),
{
    let t = s.drop_first();
    lemma_segments_split(t, false, k - 1);
    assert(s.subrange(0, k).drop_first() =~= t.subrange(0, k - 1));
    assert(s.subrange(k, s.len() as int).drop_first() =~= t.subrange(k, t.len() as int));
}

/// The result of matching `text` against the regular expression `pattern`:
/// `None` where `pattern` is not a valid regular expression.
pub uninterp spec fn regex_match(pattern: Seq<char>, text: Seq<char>) -> Option<bool>;

/// Compiles `pattern` with `regex::Regex::new` and matches `text` against it
/// with `Regex::is_match`. The result is named, and for `PATH_PATTERN` it is
/// the language that the regex syntax gives that pattern: anchored at both
/// ends, the class `[a-z0-9-_]` holding the two ranges, `-` and `_`.
#[verifier::external_body]
fn regex_is_match(pattern: &str, text: &str) -> (r: Option<bool>)
    ensures
        r == regex_match(pattern@, text@),
        pattern@ == PATH_PATTERN@ ==> r == Some(is_path_string(text@)),
{
    match regex::Regex::new(pattern) {
        Ok(re) => Some(re.is_match(text)),
        Err(_) => None,
    }
}

/// A map from path strings to paths.
pub type PathIds = DashMap<String, SuPath>;

/// A map from paths to path strings.
pub type PathNames = DashMap<SuPath, String>;

/// The path of each path string.
pub type IdMap = Map<Seq<char>, SuPath>;

/// The path string of each path.
pub type NameMap = Map<SuPath, Seq<char>>;

/// What a map from path strings to paths holds.
pub uninterp spec fn path_ids(m: PathIds) -> Map<Seq<char>, SuPath>;

/// What a map from paths to path strings holds.
pub uninterp spec fn path_names(m: PathNames) -> Map<SuPath, Seq<char>>;

/// `DashMap::new` for the map from path strings to paths: it holds nothing.
#[verifier::external_body]
fn new_path_ids() -> (r: PathIds)
    ensures
        path_ids(r) == IdMap::empty(),
{
    DashMap::new()
}

/// `DashMap::new` for the map from paths to path strings: it holds nothing.
#[verifier::external_body]
fn new_path_names() -> (r: PathNames)
    ensures
        path_names(r) == NameMap::empty(),
{
    DashMap::new()
}

/// `DashMap::get` on the map from path strings to paths: the path filed
/// under `s`, if any.
#[verifier::external_body]
fn lookup_id(m: &PathIds, s: &str) -> (r: Option<SuPath>)
    ensures
        r == (if path_ids(*m).contains_key(s@) {
            Some(path_ids(*m)[s@])
        } else {
            None
        }),
{
    match m.get(s) {
        Some(p) => Some(*p),
        None => None,
    }
}

/// `DashMap::len` on the map from path strings to paths: how many strings
/// it holds.
#[verifier::external_body]
fn id_count(m: &PathIds) -> (r: usize)
    ensures
        r == path_ids(*m).len(),
{
    m.len()
}

/// `DashMap::insert` on the map from path strings to paths: `s` is filed
/// under `p`, replacing what was filed there.
#[verifier::external_body]
fn insert_id(m: &mut PathIds, s: String, p: SuPath)
    ensures
        path_ids(*final(m)) == path_ids(*old(m)).insert(s@, p),
{
    m.insert(s, p);
}

/// `DashMap::insert` on the map from paths to path strings: `p` is filed
/// under `s`, replacing what was filed there.
#[verifier::external_body]
fn insert_name(m: &mut PathNames, p: SuPath, s: String)
    ensures
        path_names(*final(m)) == path_names(*old(m)).insert(p, s@),
{
    m.insert(p, s);
}

/// `DashMap::get` on the map from paths to path strings: a copy of the
/// string filed under `p`, if any.
#[verifier::external_body]
fn lookup_name(m: &PathNames, p: SuPath) -> (r: Option<String>)
    ensures
        match r {
            Some(s) => path_names(*m).contains_key(p) && s@ == path_names(*m)[p],
            None => !path_names(*m).contains_key(p),
        },
{
    match m.get(&p) {
        Some(s) => Some(s.clone()),
        None => None,
    }
}

/// Interns path strings: each well-formed path string gets the next path
/// handle the first time it is asked for, and keeps it.
#[derive(Debug)]
pub struct PathManager {
    ids: PathIds,
    names: PathNames,
}

/// What `get_path` does: a string interned before keeps its path; a new
/// well-formed path string gets the next handle; a malformed one is refused
/// and nothing changes.
pub open spec fn got_path(before: PathManager, after: PathManager, s: Seq<char>, r: Result<SuPath, PathFormatError>) -> bool {
    if before.strings().contains_key(s) {
        &&& r == Ok::<SuPath, PathFormatError>(before.strings()[s])
        &&& after.strings() == before.strings()
        &&& after.names() == before.names()
    } else if is_path_string(s) {
        &&& r == Ok::<SuPath, PathFormatError>(SuPath(before.count() as u32))
        &&& after.strings() == before.strings().insert(s, SuPath(before.count() as u32))
        &&& after.names() == before.names().insert(SuPath(before.count() as u32), s)
    } else {
        &&& r == Err::<SuPath, PathFormatError>(PathFormatError)
        &&& after.strings() == before.strings()
        &&& after.names() == before.names()
    }
}

impl PathManager {
    /// The path of each interned string.
    pub closed spec fn strings(self) -> Map<Seq<char>, SuPath> {
        path_ids(self.ids)
    }

    /// The string of each path handed out.
    pub closed spec fn names(self) -> Map<SuPath, Seq<char>> {
        path_names(self.names)
    }

    /// How many strings are interned.
    pub open spec fn count(self) -> nat {
        self.strings().len()
    }

    /// The two maps are inverse to each other, and the paths handed out are
    /// the first `count()` handles.
    pub open spec fn wf(self) -> bool {
        &&& self.strings().dom().finite()
        &&& forall|s: Seq<char>| #[trigger] self.strings().contains_key(s) ==> is_path_string(s)
        &&& self.count() <= u32::MAX + 1
        &&& forall|s: Seq<char>| #[trigger] self.strings().contains_key(s) ==> {
            &&& self.names().contains_key(self.strings()[s])
            &&& self.names()[self.strings()[s]] == s
            &&& self.strings()[s].0 < self.count()
        }
        &&& forall|p: SuPath| #[trigger] self.names().contains_key(p) ==> {
            &&& self.strings().contains_key(self.names()[p])
            &&& self.strings()[self.names()[p]] == p
        }
    }

    /// A path manager that holds no path.
    pub fn new() -> (r: Self)
        ensures
            r.wf(),
            r.strings() == Map::<Seq<char>, SuPath>::empty(),
            r.names() == Map::<SuPath, Seq<char>>::empty(),
    {
        PathManager { ids: new_path_ids(), names: new_path_names() }
    }

    /// The path of `path_string`: the one it was given before, or, for a
    /// well-formed path string seen for the first time, the next handle;
    /// a malformed string is refused and nothing changes.
    pub fn get_path(&mut self, path_string: &str) -> (r: Result<SuPath, PathFormatError>)
        requires
            old(self).wf(),
            old(self).count() <= u32::MAX,
        ensures
            final(self).wf(),
            got_path(*old(self), *final(self), path_string@, r),
    {
        match lookup_id(&self.ids, path_string) {
            Some(p) => return Ok(p),
            None => {},
        }
        match regex_is_match(PATH_PATTERN, path_string) {
            Some(true) => {},
            _ => return Err(PathFormatError),
        }
        let n = id_count(&self.ids);
        let path = SuPath(n as u32);
        let ghost old_strings = self.strings();
        let ghost old_names = self.names();
        proof {
            assert(!old_names.contains_key(path)) by {
                if old_names.contains_key(path) {
                    assert(old_strings[old_names[path]].0 < n);
                }
            }
        }
        insert_id(&mut self.ids, path_string.to_owned(), path);
        insert_name(&mut self.names, path, path_string.to_owned());
        proof {
            assert(self.strings().dom() =~= old_strings.dom().insert(path_string@));
            assert(self.count() == n + 1);
            assert forall|s: Seq<char>| #[trigger] self.strings().contains_key(s) implies {
                &&& self.names().contains_key(self.strings()[s])
                &&& self.names()[self.strings()[s]] == s
                &&& self.strings()[s].0 < self.count()
            } by {
                if s != path_string@ {
                    assert(old_strings.contains_key(s));
                    assert(old_strings[s] != path);
                }
            }
            assert forall|p: SuPath| #[trigger] self.names().contains_key(p) implies {
                &&& self.strings().contains_key(self.names()[p])
                &&& self.strings()[self.names()[p]] == p
            } by {
                if p != path {
                    assert(old_names.contains_key(p));
                    assert(old_names[p] != path_string@);
                }
            }
        }
        Ok(path)
    }

    /// How many strings are interned.
    pub fn len(&self) -> (r: usize)
        ensures
            r == self.count(),
    {
        id_count(&self.ids)
    }

    /// The string that `path` was handed out for, if any.
    pub fn get_path_string(&self, path: SuPath) -> (r: Option<String>)
        ensures
            match r {
                Some(s) => self.names().contains_key(path) && s@ == self.names()[path],
                None => !self.names().contains_key(path),
            },
    {
        lookup_name(&self.names, path)
    }
}

/// A path handed out for a string gives that string back.
pub proof fn lemma_path_string_round_trip(m: PathManager, s: Seq<char>)
    requires
        m.wf(),
        m.strings().contains_key(s),
    ensures
        m.names().contains_key(m.strings()[s]),
        m.names()[m.strings()[s]] == s,
{
}

/// Asking for a path never changes the path of a string interned before,
/// nor the string of a path handed out before.
pub proof fn lemma_get_path_keeps(
    before: PathManager,
    after: PathManager,
    s: Seq<char>,
    r: Result<SuPath, PathFormatError>,
)
    requires
        before.wf(),
        before.count() <= u32::MAX,
        got_path(before, after, s, r),
    ensures
        forall|t: Seq<char>| #[trigger] before.strings().contains_key(t) ==> after.strings().contains_key(t)
            && after.strings()[t] == before.strings()[t],
        forall|p: SuPath| #[trigger] before.names().contains_key(p) ==> after.names().contains_key(p)
            && after.names()[p] == before.names()[p],
{
    if !before.strings().contains_key(s) && is_path_string(s) {
        let p = SuPath(before.count() as u32);
        assert(!before.names().contains_key(p)) by {
            if before.names().contains_key(p) {
                assert(before.strings()[before.names()[p]].0 < before.count());
            }
        }
    }
}

/// Asking twice for the path of the same string gives the same answer and
/// changes nothing the second time.
pub proof fn lemma_get_path_twice(
    m0: PathManager,
    m1: PathManager,
    m2: PathManager,
    s: Seq<char>,
    r1: Result<SuPath, PathFormatError>,
    r2: Result<SuPath, PathFormatError>,
)
    requires
        m0.wf(),
        m1.wf(),
        got_path(m0, m1, s, r1),
        got_path(m1, m2, s, r2),
    ensures
        r2 == r1,
        m2.strings() == m1.strings(),
        m2.names() == m1.names(),
{
}

/// Different strings get different paths.
pub proof fn lemma_paths_distinct(m: PathManager, s1: Seq<char>, s2: Seq<char>)
    requires
        m.wf(),
        m.strings().contains_key(s1),
        m.strings().contains_key(s2),
        s1 != s2,
    ensures
        m.strings()[s1] != m.strings()[s2],
{
    assert(m.names()[m.strings()[s1]] == s1);
    assert(m.names()[m.strings()[s2]] == s2);
}

} // verus!
