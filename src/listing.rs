use vstd::prelude::*;
use crate::platform::Platform;

verus! {

/// What `str::to_lowercase` makes of a text.
pub uninterp spec fn lower_of(s: Seq<char>) -> Seq<char>;

/// Relies on `str::to_lowercase`: the lower-case form of a text, which
/// depends on its characters alone.
#[verifier::external_body]
fn lowercase(s: &str) -> (r: String)
    ensures
        r@ == lower_of(s@),
{
    s.to_lowercase()
}

/// Lexicographic order on texts, character by character by code point; a
/// proper prefix comes first. This is the order of `String`'s `cmp`.
pub open spec fn lex_lt(a: Seq<char>, b: Seq<char>) -> bool
    decreases a.len(),
{
    if a.len() == 0 {
        b.len() > 0
    } else if b.len() == 0 {
        false
    } else if a[0] != b[0] {
        (a[0] as u32) < (b[0] as u32)
    } else {
        lex_lt(a.drop_first(), b.drop_first())
    }
}

/// `a` comes strictly before `b` once both are lower-cased.
pub open spec fn lower_lt(a: Seq<char>, b: Seq<char>) -> bool {
    lex_lt(lower_of(a), lower_of(b))
}

/// `x` placed into `s` just before the first element it sorts strictly
/// before, so that it lands after every element it ties with.
pub open spec fn insert_by_lower(s: Seq<Seq<char>>, x: Seq<char>) -> Seq<Seq<char>>
    decreases s.len(),
{
    if s.len() == 0 {
        seq![x]
    } else if lower_lt(x, s[0]) {
        seq![x] + s
    } else {
        seq![s[0]] + insert_by_lower(s.drop_first(), x)
    }
}

/// `s` sorted case-insensitively and stably: ties keep their order.
pub open spec fn sort_by_lower(s: Seq<Seq<char>>) -> Seq<Seq<char>>
    decreases s.len(),
{
    if s.len() == 0 {
        s
    } else {
        insert_by_lower(sort_by_lower(s.drop_last()), s.last())
    }
}

/// No element sorts strictly before one that precedes it.
pub open spec fn sorted_by_lower(s: Seq<Seq<char>>) -> bool {
    forall|i: int, j: int| 0 <= i < j < s.len() ==> !lower_lt(#[trigger] s[j], #[trigger] s[i])
}

/// One child of a directory, as read from the file system.
pub struct DirEntryInfo {
    /// The entry's own name.
    pub name: String,
    /// The full path of the entry.
    pub path: String,
    /// Whether the entry is a directory.
    pub is_dir: bool,
}

/// A name that begins with the hidden-file marker `.`.
pub open spec fn is_hidden(name: Seq<char>) -> bool {
    name.len() > 0 && name[0] == '.'
}

/// An entry that a listing shows: a directory whose name is not hidden.
pub open spec fn is_listed(e: DirEntryInfo) -> bool {
    e.is_dir && !is_hidden(e.name@)
}

/// The paths of the listed entries, in the order they were read.
pub open spec fn listed_paths(entries: Seq<DirEntryInfo>) -> Seq<Seq<char>>
    decreases entries.len(),
{
    if entries.len() == 0 {
        seq![]
    } else {
        let rest = listed_paths(entries.drop_last());
        if is_listed(entries.last()) {
            rest.push(entries.last().path@)
        } else {
            rest
        }
    }
}

/// What listing a directory with these entries yields.
pub open spec fn listing(entries: Seq<DirEntryInfo>) -> Seq<Seq<char>> {
    sort_by_lower(listed_paths(entries))
}

/// The texts held by a sequence of strings.
pub open spec fn views(v: Seq<String>) -> Seq<Seq<char>> {
    v.map_values(|s: String| s@)
}

/// Compares two texts in the order of `lex_lt`.
pub fn lex_less(a: &str, b: &str) -> (r: bool)
    ensures
        r == lex_lt(a@, b@),
{
    let na = a.unicode_len();
    let nb = b.unicode_len();
    let mut i: usize = 0;
    assert(a@.skip(0) =~= a@);
    assert(b@.skip(0) =~= b@);
    while i < na && i < nb
        invariant
            na == a@.len(),
            nb == b@.len(),
            i <= na,
            i <= nb,
            lex_lt(a@, b@) == lex_lt(a@.skip(i as int), b@.skip(i as int)),
        decreases na - i,
    {
        let ca = a.get_char(i);
        let cb = b.get_char(i);
        if ca != cb {
            return (ca as u32) < (cb as u32);
        }
        assert(a@.skip(i as int).drop_first() =~= a@.skip(i + 1));
        assert(b@.skip(i as int).drop_first() =~= b@.skip(i + 1));
        i = i + 1;
    }
    i == na && i < nb
}

proof fn lemma_insert_at(s: Seq<Seq<char>>, x: Seq<char>, p: int)
    requires
        0 <= p <= s.len(),
        forall|j: int| 0 <= j < p ==> !lower_lt(x, #[trigger] s[j]),
        p == s.len() || lower_lt(x, s[p]),
    ensures
        insert_by_lower(s, x) =~= s.take(p).push(x) + s.skip(p),
    decreases p,
{
    if p > 0 {
        let t = s.drop_first();
        assert forall|j: int| 0 <= j < p - 1 implies !lower_lt(x, #[trigger] t[j]) by {
            assert(t[j] == s[j + 1]);
        }
        lemma_insert_at(t, x, p - 1);
        assert(s.take(p).push(x) + s.skip(p) =~= seq![s[0]] + (t.take(p - 1).push(x) + t.skip(p - 1)));
    }
}

proof fn lemma_lex_irreflexive(a: Seq<char>)
    ensures
        !lex_lt(a, a),
    decreases a.len(),
{
    if a.len() > 0 {
        lemma_lex_irreflexive(a.drop_first());
    }
}

proof fn lemma_lex_transitive(a: Seq<char>, b: Seq<char>, c: Seq<char>)
    requires
        lex_lt(a, b),
        lex_lt(b, c),
    ensures
        lex_lt(a, c),
    decreases a.len(),
{
    if a.len() > 0 && a[0] == b[0] && b[0] == c[0] {
        lemma_lex_transitive(a.drop_first(), b.drop_first(), c.drop_first());
    }
}

/// Where `insert_by_lower` puts `x` into `s`.
pub open spec fn insert_position(s: Seq<Seq<char>>, x: Seq<char>) -> int
    decreases s.len(),
{
    if s.len() == 0 || lower_lt(x, s[0]) {
        0
    } else {
        1 + insert_position(s.drop_first(), x)
    }
}

proof fn lemma_insert_position(s: Seq<Seq<char>>, x: Seq<char>)
    ensures
        0 <= insert_position(s, x) <= s.len(),
        forall|j: int| 0 <= j < insert_position(s, x) ==> !lower_lt(x, #[trigger] s[j]),
        insert_position(s, x) == s.len() || lower_lt(x, s[insert_position(s, x)]),
    decreases s.len(),
{
    if s.len() > 0 && !lower_lt(x, s[0]) {
        let t = s.drop_first();
        lemma_insert_position(t, x);
        assert forall|j: int| 0 <= j < insert_position(s, x) implies !lower_lt(x, #[trigger] s[j]) by {
            if j > 0 {
                assert(s[j] == t[j - 1]);
            }
        }
    }
}

proof fn lemma_insert_keeps_order(s: Seq<Seq<char>>, x: Seq<char>)
    requires
        sorted_by_lower(s),
    ensures
        sorted_by_lower(insert_by_lower(s, x)),
        insert_by_lower(s, x).to_multiset() == s.to_multiset().insert(x),
{
    let p = insert_position(s, x);
    lemma_insert_position(s, x);
    lemma_insert_at(s, x, p);
    let r = insert_by_lower(s, x);
    assert(r =~= s.insert(p, x));
    vstd::seq_lib::to_multiset_insert(s, p, x);
    assert forall|i: int, j: int| 0 <= i < j < r.len() implies !lower_lt(#[trigger] r[j], #[trigger] r[i]) by {
        if i == p {
            if lower_lt(r[j], x) {
                let y = s[j - 1];
                lemma_lex_transitive(lower_of(y), lower_of(x), lower_of(s[p]));
                if j - 1 == p {
                    lemma_lex_irreflexive(lower_of(y));
                } else {
                    assert(!lower_lt(s[j - 1], s[p]));
                }
            }
        } else if j == p {
            assert(r[i] == s[i]);
        } else if i < p && j < p {
            assert(r[i] == s[i] && r[j] == s[j]);
        } else if i < p {
            assert(r[i] == s[i] && r[j] == s[j - 1]);
        } else {
            assert(r[i] == s[i - 1] && r[j] == s[j - 1]);
        }
    }
}

proof fn lemma_sort_sorted(s: Seq<Seq<char>>)
    ensures
        sorted_by_lower(sort_by_lower(s)),
        sort_by_lower(s).to_multiset() == s.to_multiset(),
    decreases s.len(),
{
    if s.len() == 0 {
    } else {
        lemma_sort_sorted(s.drop_last());
        lemma_insert_keeps_order(sort_by_lower(s.drop_last()), s.last());
        vstd::seq_lib::to_multiset_build(s.drop_last(), s.last());
        assert(s.drop_last().push(s.last()) =~= s);
    }
}

proof fn lemma_listed_paths_come_from_entries(entries: Seq<DirEntryInfo>)
    ensures
        forall|k: int| 0 <= k < listed_paths(entries).len() ==> exists|i: int|
            0 <= i < entries.len() && is_listed(#[trigger] entries[i]) && entries[i].path@
                == #[trigger] listed_paths(entries)[k],
    decreases entries.len(),
{
    if entries.len() == 0 {
        assert(listed_paths(entries).len() == 0);
    } else {
        let init = entries.drop_last();
        lemma_listed_paths_come_from_entries(init);
        assert forall|k: int| 0 <= k < listed_paths(entries).len() implies exists|i: int|
            0 <= i < entries.len() && is_listed(#[trigger] entries[i]) && entries[i].path@
                == #[trigger] listed_paths(entries)[k] by {
            if k < listed_paths(init).len() {
                let i = choose|i: int|
                    0 <= i < init.len() && is_listed(#[trigger] init[i]) && init[i].path@
                        == #[trigger] listed_paths(init)[k];
                assert(entries[i] == init[i]);
            } else {
                assert(entries[entries.len() - 1] == entries.last());
            }
        }
    }
}

/// A listing holds exactly the paths of the entries that are directories
/// with names that are not hidden, each as often as it was read, and it is
/// in case-insensitive order: no path sorts strictly before one ahead of it.
pub proof fn lemma_listing_is_sorted_directories(entries: Seq<DirEntryInfo>)
    ensures
        sorted_by_lower(listing(entries)),
        listing(entries).to_multiset() == listed_paths(entries).to_multiset(),
        forall|k: int|
            #![trigger listing(entries)[k]]
            0 <= k < listing(entries).len() ==> exists|i: int|
            0 <= i < entries.len() && is_listed(#[trigger] entries[i]) && entries[i].path@
                == listing(entries)[k],
{
    broadcast use vstd::seq_lib::group_to_multiset_ensures;

    let r = listing(entries);
    let l = listed_paths(entries);
    lemma_sort_sorted(l);
    lemma_listed_paths_come_from_entries(entries);
    assert forall|k: int| #![trigger r[k]] 0 <= k < r.len() implies exists|i: int|
        0 <= i < entries.len() && is_listed(#[trigger] entries[i]) && entries[i].path@ == r[k] by {
        assert(r.contains(r[k]));
        assert(r.to_multiset().count(r[k]) > 0);
        assert(l.contains(r[k]));
        let m = choose|m: int| 0 <= m < l.len() && l[m] == r[k];
        assert(l[m] == listed_paths(entries)[m]);
    }
}

/// Puts `path` into the sorted `paths`, keeping `keys` (their lower-case
/// forms) alongside.
fn insert_sorted(keys: &mut Vec<String>, paths: &mut Vec<String>, path: String)
    requires
        old(keys)@.len() == old(paths)@.len(),
        forall|j: int| 0 <= j < old(keys)@.len() ==> (#[trigger] old(keys)@[j])@ == lower_of(old(paths)@[j]@),
    ensures
        final(keys)@.len() == final(paths)@.len(),
        forall|j: int| 0 <= j < final(keys)@.len() ==> (#[trigger] final(keys)@[j])@ == lower_of(final(paths)@[j]@),
        views(final(paths)@) == insert_by_lower(views(old(paths)@), path@),
{
    let key = lowercase(path.as_str());
    let n = keys.len();
    let mut p: usize = 0;
    while p < n && !lex_less(key.as_str(), keys[p].as_str())
        invariant
            n == keys@.len(),
            n == paths@.len(),
            p <= n,
            key@ == lower_of(path@),
            forall|j: int| 0 <= j < n ==> (#[trigger] keys@[j])@ == lower_of(paths@[j]@),
            forall|j: int| 0 <= j < p ==> !lower_lt(path@, #[trigger] views(paths@)[j]),
        decreases n - p,
    {
        p = p + 1;
    }
    proof {
        lemma_insert_at(views(paths@), path@, p as int);
    }
    let ghost before = paths@;
    keys.insert(p, key);
    paths.insert(p, path);
    assert(views(paths@) =~= views(before).take(p as int).push(path@) + views(before).skip(p as int));
}

/// The full paths of the entries that are directories and not hidden,
/// sorted case-insensitively; entries that tie keep the order they came in.
pub fn list_directories(entries: &Vec<DirEntryInfo>) -> (r: Vec<String>)
    ensures
        views(r@) == listing(entries@),
{
    let mut keys: Vec<String> = Vec::new();
    let mut paths: Vec<String> = Vec::new();
    let mut i: usize = 0;
    while i < entries.len()
        invariant
            i <= entries@.len(),
            keys@.len() == paths@.len(),
            forall|j: int| 0 <= j < keys@.len() ==> (#[trigger] keys@[j])@ == lower_of(paths@[j]@),
            views(paths@) == sort_by_lower(listed_paths(entries@.take(i as int))),
        decreases entries@.len() - i,
    {
        let e = &entries[i];
        assert(entries@.take(i + 1).drop_last() =~= entries@.take(i as int));
        if e.is_dir && !(e.name.as_str().unicode_len() > 0 && e.name.as_str().get_char(0) == '.') {
            let path = e.path.clone();
            let ghost rest = listed_paths(entries@.take(i as int));
            assert(rest.push(path@).drop_last() =~= rest);
            insert_sorted(&mut keys, &mut paths, path);
        }
        i = i + 1;
    }
    assert(entries@.take(entries@.len() as int) =~= entries@);
    paths
}

/// Where a listing reads its entries from.
pub enum ListingSource {
    /// The drive letters that are mounted.
    Drives,
    /// The children of this directory.
    Directory(String),
}

/// Picks what listing `path` reads from: on Windows the mounted drives
/// when `path` is empty, elsewhere the file-system root; a non-empty `path`
/// itself.
pub fn listing_source(p: Platform, path: &str) -> (r: ListingSource)
    ensures
        path@.len() == 0 && p is Windows ==> r is Drives,
        path@.len() == 0 && !(p is Windows) ==> r is Directory && r->Directory_0@ == "/"@,
        path@.len() > 0 ==> r is Directory && r->Directory_0@ == path@,
{
    if path.unicode_len() == 0 {
        if p.is_windows() {
            ListingSource::Drives
        } else {
            ListingSource::Directory(String::from_str("/"))
        }
    } else {
        ListingSource::Directory(String::from_str(path))
    }
}

/// The letters that a drive may have, in order.
pub open spec fn drive_letters() -> Seq<char> {
    "ABCDEFGHIJKLMNOPQRSTUVWXYZ"@
}

/// The root of the drive with the `i`-th letter, such as `C:\`.
pub open spec fn drive_root(i: int) -> Seq<char> {
    seq![drive_letters()[i], ':', '\\']
}

/// The roots of every possible drive, `A:\` to `Z:\`.
pub fn drive_roots() -> (r: Vec<String>)
    ensures
        r@.len() == 26,
        forall|i: int| 0 <= i < 26 ==> (#[trigger] r@[i])@ == drive_root(i),
{
    let letters = "ABCDEFGHIJKLMNOPQRSTUVWXYZ";
    proof {
        reveal_strlit("ABCDEFGHIJKLMNOPQRSTUVWXYZ");
        reveal_strlit(":\\");
    }
    let mut r: Vec<String> = Vec::new();
    let mut i: usize = 0;
    while i < 26
        invariant
            i <= 26,
            letters@ == drive_letters(),
            drive_letters().len() == 26,
            r@.len() == i,
            forall|j: int| 0 <= j < i ==> (#[trigger] r@[j])@ == drive_root(j),
        decreases 26 - i,
    {
        let mut root = String::from_str(letters.substring_char(i, i + 1));
        root.append(":\\");
        proof {
            reveal_strlit(":\\");
        }
        assert(root@ =~= drive_root(i as int));
        r.push(root);
        i = i + 1;
    }
    r
}

/// Keeps the drive roots whose probe found them present.
pub fn existing_drives(roots: Vec<String>, present: &Vec<bool>) -> (r: Vec<String>)
    requires
        roots@.len() == present@.len(),
    ensures
        views(r@) == kept(views(roots@), present@),
{
    let mut r: Vec<String> = Vec::new();
    let n = roots.len();
    let mut i: usize = 0;
    while i < n
        invariant
            n == roots@.len(),
            n == present@.len(),
            i <= n,
            views(r@) == kept(views(roots@).take(i as int), present@.take(i as int)),
        decreases n - i,
    {
        assert(views(roots@).take(i + 1).drop_last() =~= views(roots@).take(i as int));
        assert(present@.take(i + 1).drop_last() =~= present@.take(i as int));
        if present[i] {
            r.push(roots[i].clone());
            assert(views(r@) =~= kept(views(roots@).take(i + 1), present@.take(i + 1)));
        }
        i = i + 1;
    }
    assert(views(roots@).take(n as int) =~= views(roots@));
    assert(present@.take(n as int) =~= present@);
    r
}

/// The elements of `s` whose flag in `flags` is set, in order.
pub open spec fn kept(s: Seq<Seq<char>>, flags: Seq<bool>) -> Seq<Seq<char>>
    decreases s.len(),
{
    if s.len() == 0 || flags.len() == 0 {
        seq![]
    } else {
        let rest = kept(s.drop_last(), flags.drop_last());
        if flags.last() {
            rest.push(s.last())
        } else {
            rest
        }
    }
}

} // verus!
