use vstd::prelude::*;
use crate::platform::Platform;

verus! {

/// A slash or a backslash: the characters trimmed from the front of a
/// relative path before it is joined onto the base path.
pub open spec fn is_slash(c: char) -> bool {
    c == '/' || c == '\\'
}

/// How many slashes or backslashes `s` starts with.
pub open spec fn leading_slashes(s: Seq<char>) -> nat
    decreases s.len(),
{
    if s.len() > 0 && is_slash(s[0]) {
        1 + leading_slashes(s.drop_first())
    } else {
        0
    }
}

/// `s` without its leading slashes and backslashes.
pub open spec fn strip_leading(s: Seq<char>) -> Seq<char> {
    s.skip(leading_slashes(s) as int)
}

/// `rel` appended to `base`, with one separator between them unless `base`
/// is empty or already ends with one.
pub open spec fn join(p: Platform, base: Seq<char>, rel: Seq<char>) -> Seq<char> {
    if base.len() == 0 || p.is_separator(base.last()) {
        base + rel
    } else {
        base.push(p.separator()) + rel
    }
}

/// The character `c` as the platform writes it in a path.
pub open spec fn native_char(p: Platform, c: char) -> char {
    if p is Windows && c == '/' {
        '\\'
    } else {
        c
    }
}

/// `s` with every forward slash turned into a backslash on Windows, and
/// unchanged elsewhere.
pub open spec fn native(p: Platform, s: Seq<char>) -> Seq<char> {
    s.map_values(|c: char| native_char(p, c))
}

/// The folder that a path relative to `base` designates.
pub open spec fn project_path(p: Platform, base: Seq<char>, rel: Seq<char>) -> Seq<char> {
    native(p, join(p, base, strip_leading(rel)))
}

proof fn lemma_leading_slashes_step(s: Seq<char>, i: int)
    requires
        0 <= i < s.len(),
        is_slash(s[i]),
    ensures
        leading_slashes(s.skip(i)) == 1 + leading_slashes(s.skip(i + 1)),
{
    assert(s.skip(i).drop_first() =~= s.skip(i + 1));
}

proof fn lemma_leading_slashes(s: Seq<char>)
    ensures
        leading_slashes(s) <= s.len(),
        forall|i: int| 0 <= i < leading_slashes(s) ==> is_slash(#[trigger] s[i]),
        leading_slashes(s) == s.len() || !is_slash(s[leading_slashes(s) as int]),
    decreases s.len(),
{
    if s.len() > 0 && is_slash(s[0]) {
        let t = s.drop_first();
        lemma_leading_slashes(t);
        assert forall|i: int| 0 <= i < leading_slashes(s) implies is_slash(#[trigger] s[i]) by {
            if i > 0 {
                assert(s[i] == t[i - 1]);
            }
        }
    }
}

/// Resolving a relative path drops all of its leading slashes and
/// backslashes and nothing else; what is left starts with neither, so it
/// meets the base at the one separator that `join` puts in (none when the
/// base is empty or already ends with one), never at two. Off Windows the
/// result is exactly that join; on Windows it is the join written with
/// backslashes.
pub proof fn lemma_relative_join(p: Platform, base: Seq<char>, rel: Seq<char>)
    ensures
        ({
            let k = rel.len() - strip_leading(rel).len();
            &&& 0 <= k <= rel.len()
            &&& rel =~= rel.take(k) + strip_leading(rel)
            &&& forall|i: int| 0 <= i < k ==> is_slash(#[trigger] rel[i])
        }),
        strip_leading(rel).len() == 0 || !is_slash(strip_leading(rel)[0]),
        base.len() == 0 || p.is_separator(base.last()) ==> join(p, base, strip_leading(rel))
            == base + strip_leading(rel),
        base.len() > 0 && !p.is_separator(base.last()) ==> join(p, base, strip_leading(rel))
            == base.push(p.separator()) + strip_leading(rel),
        !(p is Windows) ==> project_path(p, base, rel) == join(p, base, strip_leading(rel)),
        p is Windows ==> project_path(p, base, rel) == native(p, join(p, base, strip_leading(rel))),
{
    lemma_leading_slashes(rel);
    let k = leading_slashes(rel) as int;
    assert(rel.len() - strip_leading(rel).len() == k);
    if !(p is Windows) {
        let j = join(p, base, strip_leading(rel));
        assert(native(p, j) =~= j);
    }
}

/// Drops every leading slash and backslash of `s`.
pub fn strip_leading_slashes(s: &str) -> (r: String)
    ensures
        r@ == strip_leading(s@),
{
    let n = s.unicode_len();
    let mut i: usize = 0;
    assert(s@.skip(0) =~= s@);
    while i < n && (s.get_char(i) == '/' || s.get_char(i) == '\\')
        invariant
            n == s@.len(),
            i <= n,
            leading_slashes(s@) == i + leading_slashes(s@.skip(i as int)),
        decreases n - i,
    {
        proof {
            lemma_leading_slashes_step(s@, i as int);
        }
        i = i + 1;
    }
    assert(leading_slashes(s@.skip(i as int)) == 0);
    String::from_str(s.substring_char(i, n))
}

/// Appends `rel` to `base` with exactly the separator `join` calls for.
pub fn join_path(p: Platform, base: &str, rel: &str) -> (r: String)
    ensures
        r@ == join(p, base@, rel@),
{
    let n = base.unicode_len();
    let mut r = String::from_str(base);
    let needs_separator = if n == 0 {
        false
    } else {
        let last = base.get_char(n - 1);
        !(last == '/' || (p.is_windows() && last == '\\'))
    };
    if needs_separator {
        if p.is_windows() {
            r.append("\\");
        } else {
            r.append("/");
        }
        proof {
            reveal_strlit("\\");
            reveal_strlit("/");
        }
    }
    r.append(rel);
    r
}

/// Writes `s` with the platform's own separator: on Windows every `/`
/// becomes `\`, elsewhere the text is kept as it is.
pub fn to_native(p: Platform, s: &str) -> (r: String)
    ensures
        r@ == native(p, s@),
{
    let n = s.unicode_len();
    let windows = p.is_windows();
    let mut r = String::new();
    let mut i: usize = 0;
    while i < n
        invariant
            n == s@.len(),
            i <= n,
            windows == (p is Windows),
            r@ == native(p, s@.take(i as int)),
        decreases n - i,
    {
        let c = s.get_char(i);
        if windows && c == '/' {
            r.append("\\");
            proof {
                reveal_strlit("\\");
            }
        } else {
            r.append(s.substring_char(i, i + 1));
        }
        assert(s@.take(i + 1) =~= s@.take(i as int).push(c));
        assert(native(p, s@.take(i + 1)) =~= native(p, s@.take(i as int)).push(native_char(p, c)));
        i = i + 1;
    }
    assert(s@.take(n as int) =~= s@);
    r
}

/// Resolves `relative` against `base`: leading slashes and backslashes are
/// dropped from `relative`, the two are joined with a single separator, and
/// the result is written with the platform's separator.
pub fn project_folder_path(p: Platform, base: &str, relative: &str) -> (r: String)
    ensures
        r@ == project_path(p, base@, relative@),
{
    let clean = strip_leading_slashes(relative);
    let joined = join_path(p, base, clean.as_str());
    to_native(p, joined.as_str())
}

/// The base folder used when none is configured.
pub open spec fn default_base(p: Platform) -> Seq<char> {
    if p is Windows {
        seq!['N', ':', '\\', 'M', 'a', 'n', 'd', 'a', 't', 's']
    } else {
        seq!['N', ':', '/', '/', 'M', 'a', 'n', 'd', 'a', 't', 's']
    }
}

/// The base folder used when none is configured: `N:\Mandats` on Windows,
/// `N://Mandats` elsewhere.
pub fn default_base_path(p: Platform) -> (r: String)
    ensures
        r@ == default_base(p),
{
    if p.is_windows() {
        proof {
            reveal_strlit("N:\\Mandats");
        }
        String::from_str("N:\\Mandats")
    } else {
        proof {
            reveal_strlit("N://Mandats");
        }
        String::from_str("N://Mandats")
    }
}

/// The base folder: the configured value when there is one, the platform's
/// default otherwise.
pub fn resolve_base_path(p: Platform, configured: Option<String>) -> (r: String)
    ensures
        configured is Some ==> r@ == configured->0@,
        configured is None ==> r@ == default_base(p),
{
    match configured {
        Some(v) => v,
        None => default_base_path(p),
    }
}

/// A folder to open, named either relative to the base folder or by an
/// absolute path.
pub enum FolderRequest {
    Relative(String),
    Absolute(String),
}

/// The path that a folder request designates, written with the platform's
/// separator.
pub open spec fn request_path(p: Platform, base: Seq<char>, req: FolderRequest) -> Seq<char> {
    match req {
        FolderRequest::Relative(rel) => project_path(p, base, rel@),
        FolderRequest::Absolute(abs) => native(p, abs@),
    }
}

/// Resolves a folder request against `base`.
pub fn folder_path(p: Platform, base: &str, req: &FolderRequest) -> (r: String)
    ensures
        r@ == request_path(p, base@, *req),
{
    match req {
        FolderRequest::Relative(rel) => project_folder_path(p, base, rel.as_str()),
        FolderRequest::Absolute(abs) => to_native(p, abs.as_str()),
    }
}

} // verus!
