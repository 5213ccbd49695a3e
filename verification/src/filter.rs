use vstd::prelude::*;
use vstd::string::StrSliceExecFns;

use crate::structures::{EntryModel, ZipFileEntry};

verus! {

/// Whether a pattern carries glob wildcards: `*` matching any run of
/// characters, `?` matching exactly one.
pub open spec fn spec_has_glob_chars(p: Seq<char>) -> bool {
    exists|i: int| 0 <= i < p.len() && ((#[trigger] p[i]) == '*' || p[i] == '?')
}

/// Glob semantics: `*` matches zero or more characters, `?` exactly one,
/// any other character itself; the whole text must be consumed.
pub open spec fn spec_glob_match(p: Seq<char>, t: Seq<char>) -> bool
    decreases p.len() + t.len(),
{
    if p.len() == 0 {
        t.len() == 0
    } else if p[0] == '*' {
        spec_glob_match(p.skip(1), t) || (t.len() > 0 && spec_glob_match(p, t.skip(1)))
    } else if t.len() == 0 {
        false
    } else if p[0] == '?' || p[0] == t[0] {
        spec_glob_match(p.skip(1), t.skip(1))
    } else {
        false
    }
}

/// The characters of `s` after its last slash; all of `s` when it has
/// none.
pub open spec fn spec_basename(s: Seq<char>) -> Seq<char>
    decreases s.len(),
{
    if s.len() == 0 {
        s
    } else if s.last() == '/' {
        Seq::empty()
    } else {
        spec_basename(s.drop_last()).push(s.last())
    }
}

/// Whether `needle` occurs as a contiguous run inside `hay`.
pub open spec fn spec_contains_seq(hay: Seq<char>, needle: Seq<char>) -> bool {
    exists|i: int|
        0 <= i && i + needle.len() <= hay.len() && #[trigger] hay.subrange(i, i + needle.len())
            == needle
}

/// Collect the characters of a string slice.
fn chars_vec(s: &str) -> (v: Vec<char>)
    ensures
        v@ == s@,
{
    let n = s.unicode_len();
    let mut v: Vec<char> = Vec::new();
    let mut i: usize = 0;
    while i < n
        invariant
            i <= n,
            n == s@.len(),
            v@ == s@.take(i as int),
        decreases n - i,
    {
        let c = s.get_char(i);
        v.push(c);
        proof {
            assert(v@ =~= s@.take(i + 1));
        }
        i = i + 1;
    }
    proof {
        assert(s@.take(n as int) =~= s@);
    }
    v
}

fn glob_match_at(p: &Vec<char>, pi: usize, t: &Vec<char>, ti: usize) -> (r: bool)
    requires
        pi <= p@.len(),
        ti <= t@.len(),
    ensures
        r == spec_glob_match(p@.skip(pi as int), t@.skip(ti as int)),
    decreases p@.len() - pi + t@.len() - ti,
{
    let ghost ps = p@.skip(pi as int);
    let ghost ts = t@.skip(ti as int);
    if pi == p.len() {
        ti == t.len()
    } else if p[pi] == '*' {
        proof {
            assert(ps[0] == p@[pi as int]);
            assert(ps.skip(1) =~= p@.skip(pi + 1));
        }
        if glob_match_at(p, pi + 1, t, ti) {
            true
        } else if ti < t.len() {
            proof {
                assert(ts.skip(1) =~= t@.skip(ti + 1));
            }
            glob_match_at(p, pi, t, ti + 1)
        } else {
            false
        }
    } else if ti == t.len() {
        proof {
            assert(ps[0] == p@[pi as int]);
        }
        false
    } else {
        proof {
            assert(ps[0] == p@[pi as int]);
            assert(ts[0] == t@[ti as int]);
            assert(ps.skip(1) =~= p@.skip(pi + 1));
            assert(ts.skip(1) =~= t@.skip(ti + 1));
        }
        if p[pi] == '?' || p[pi] == t[ti] {
            glob_match_at(p, pi + 1, t, ti + 1)
        } else {
            false
        }
    }
}

/// Whether a pattern contains the glob wildcards `*` or `?`.
pub fn has_glob_chars(pattern: &str) -> (r: bool)
    ensures
        r == spec_has_glob_chars(pattern@),
{
    let p = chars_vec(pattern);
    let n = p.len();
    let mut i: usize = 0;
    while i < n
        invariant
            i <= n,
            n == p@.len(),
            p@ == pattern@,
            forall|j: int| 0 <= j < i ==> !((#[trigger] pattern@[j]) == '*' || pattern@[j] == '?'),
        decreases n - i,
    {
        if p[i] == '*' || p[i] == '?' {
            return true;
        }
        i = i + 1;
    }
    false
}

/// Match `text` against a glob `pattern` where `*` matches zero or more
/// characters and `?` matches exactly one; the match covers the whole
/// text.
pub fn glob_match(pattern: &str, text: &str) -> (r: bool)
    ensures
        r == spec_glob_match(pattern@, text@),
{
    let p = chars_vec(pattern);
    let t = chars_vec(text);
    proof {
        assert(p@.skip(0) =~= pattern@);
        assert(t@.skip(0) =~= text@);
    }
    glob_match_at(&p, 0, &t, 0)
}

/// The basename of an entry name: what follows the last slash.
fn basename_chars(v: &Vec<char>) -> (r: Vec<char>)
    ensures
        r@ == spec_basename(v@),
{
    let n = v.len();
    let mut start: usize = n;
    while start > 0
        invariant
            start <= n,
            n == v@.len(),
            forall|j: int| start <= j < n ==> v@[j] != '/',
        ensures
            start <= n,
            n == v@.len(),
            forall|j: int| start <= j < n ==> v@[j] != '/',
            start > 0 ==> v@[start - 1] == '/',
        decreases start,
    {
        if v[start - 1] == '/' {
            break;
        }
        start = start - 1;
    }
    let mut r: Vec<char> = Vec::new();
    let mut i: usize = start;
    while i < n
        invariant
            start <= i <= n,
            n == v@.len(),
            r@ == v@.subrange(start as int, i as int),
        decreases n - i,
    {
        let c = v[i];
        r.push(c);
        proof {
            assert(r@ =~= v@.subrange(start as int, i + 1));
        }
        i = i + 1;
    }
    proof {
        lemma_basename_is_tail(v@, start as int);
    }
    r
}

proof fn lemma_basename_is_tail(s: Seq<char>, start: int)
    requires
        0 <= start <= s.len(),
        forall|j: int| start <= j < s.len() ==> s[j] != '/',
        start > 0 ==> s[start - 1] == '/',
    ensures
        spec_basename(s) == s.subrange(start, s.len() as int),
    decreases s.len() - start,
{
    if start == s.len() {
        if start > 0 {
            assert(s.last() == '/');
            assert(spec_basename(s) =~= s.subrange(start, s.len() as int));
        } else {
            assert(s.len() == 0);
            assert(spec_basename(s) =~= s.subrange(start, s.len() as int));
        }
    } else {
        let prefix = s.drop_last();
        assert(s.last() != '/');
        lemma_basename_is_tail(prefix, start);
        assert(prefix.subrange(start, prefix.len() as int).push(s.last()) =~= s.subrange(
            start,
            s.len() as int,
        ));
    }
}

/// The basename of a name: the characters after its last slash.
pub fn basename_str(s: &str) -> (r: &str)
    ensures
        r@ == spec_basename(s@),
{
    let v = chars_vec(s);
    let n = v.len();
    let mut start: usize = n;
    while start > 0
        invariant
            start <= n,
            n == v@.len(),
            forall|j: int| start <= j < n ==> v@[j] != '/',
        ensures
            start <= n,
            n == v@.len(),
            forall|j: int| start <= j < n ==> v@[j] != '/',
            start > 0 ==> v@[start - 1] == '/',
        decreases start,
    {
        if v[start - 1] == '/' {
            break;
        }
        start = start - 1;
    }
    proof {
        lemma_basename_is_tail(v@, start as int);
    }
    s.substring_char(start, n)
}

/// Whether `needle` occurs as a substring of `hay`.
fn contains_seq(hay: &Vec<char>, needle: &Vec<char>) -> (r: bool)
    ensures
        r == spec_contains_seq(hay@, needle@),
{
    let hlen = hay.len();
    let nlen = needle.len();
    if nlen > hlen {
        return false;
    }
    let mut i: usize = 0;
    while i <= hlen - nlen
        invariant
            nlen <= hlen == hay@.len(),
            nlen == needle@.len(),
            i <= hlen - nlen + 1,
            forall|j: int|
                0 <= j < i ==> #[trigger] hay@.subrange(j, j + needle@.len()) != needle@,
        decreases hlen - i,
    {
        let mut k: usize = 0;
        let mut same = true;
        while k < nlen
            invariant
                k <= nlen == needle@.len(),
                i + nlen <= hlen == hay@.len(),
                same == (forall|m: int|
                    0 <= m < k ==> hay@[i + m] == #[trigger] needle@[m]),
            decreases nlen - k,
        {
            if hay[i + k] != needle[k] {
                same = false;
                proof {
                    assert(!(forall|m: int|
                        0 <= m < k + 1 ==> hay@[i + m] == #[trigger] needle@[m])) by {
                        assert(hay@[i + k] != needle@[k as int]);
                    }
                }
                k = nlen;
            } else {
                proof {
                    if same {
                        assert(forall|m: int|
                            0 <= m < k + 1 ==> hay@[i + m] == #[trigger] needle@[m]);
                    }
                }
                k = k + 1;
            }
        }
        if same {
            proof {
                assert(hay@.subrange(i as int, i + needle@.len()) =~= needle@);
            }
            return true;
        }
        proof {
            if hay@.subrange(i as int, i + needle@.len()) == needle@ {
                assert(forall|m: int|
                    0 <= m < needle@.len() ==> hay@[i + m] == #[trigger] needle@[m]) by {
                    assert(forall|m: int|
                        0 <= m < needle@.len() ==> needle@[m] == hay@.subrange(
                            i as int,
                            i + needle@.len(),
                        )[m]);
                }
                assert(false);
            }
        }
        i = i + 1;
    }
    false
}

/// Whether an include pattern selects an entry name: a glob pattern must
/// match the whole name; a literal pattern must equal the name or its
/// basename.
pub open spec fn spec_include_match(name: Seq<char>, pat: Seq<char>) -> bool {
    if spec_has_glob_chars(pat) {
        spec_glob_match(pat, name)
    } else {
        name == pat || spec_basename(name) == pat
    }
}

/// Whether an exclude pattern rejects an entry name: by substring or by
/// glob.
pub open spec fn spec_exclude_match(name: Seq<char>, pat: Seq<char>) -> bool {
    spec_contains_seq(name, pat) || spec_glob_match(pat, name)
}

/// Whether the collaborator extracts an entry: directories never; when an
/// include list is given, only entries some include pattern selects; and
/// never an entry some exclude pattern rejects. Excludes override
/// includes.
pub open spec fn spec_should_extract(
    e: EntryModel,
    includes: Seq<Seq<char>>,
    excludes: Seq<Seq<char>>,
) -> bool {
    &&& !e.is_directory
    &&& (includes.len() == 0 || exists|i: int|
        0 <= i < includes.len() && spec_include_match(e.file_name, #[trigger] includes[i]))
    &&& !(exists|i: int|
        0 <= i < excludes.len() && spec_exclude_match(e.file_name, #[trigger] excludes[i]))
}

fn include_match(name: &Vec<char>, pat: &String) -> (r: bool)
    ensures
        r == spec_include_match(name@, pat@),
{
    if has_glob_chars(pat.as_str()) {
        let p = chars_vec(pat.as_str());
        proof {
            assert(p@.skip(0) =~= pat@);
            assert(name@.skip(0) =~= name@);
        }
        glob_match_at(&p, 0, name, 0)
    } else {
        let n = chars_vec(pat.as_str());
        if eq_chars(name, &n) {
            true
        } else {
            let base = basename_chars(name);
            eq_chars(&base, &n)
        }
    }
}

/// Whether two character vectors hold the same characters.
fn eq_chars(a: &Vec<char>, b: &Vec<char>) -> (r: bool)
    ensures
        r == (a@ == b@),
{
    let n = a.len();
    if n != b.len() {
        proof {
            assert(a@.len() != b@.len());
        }
        return false;
    }
    let mut i: usize = 0;
    while i < n
        invariant
            i <= n,
            n == a@.len() == b@.len(),
            forall|j: int| 0 <= j < i ==> a@[j] == #[trigger] b@[j],
        decreases n - i,
    {
        if a[i] != b[i] {
            return false;
        }
        i = i + 1;
    }
    proof {
        assert(a@ =~= b@);
    }
    true
}

/// Decide whether one entry is extracted, given the include and exclude
/// patterns of the command line.
pub fn should_extract(entry: &ZipFileEntry, includes: &Vec<String>, excludes: &Vec<String>) -> (r:
    bool)
    ensures
        r == spec_should_extract(entry@, includes.deep_view(), excludes.deep_view()),
{
    if entry.is_directory {
        return false;
    }
    let name = chars_vec(entry.file_name.as_str());
    let ghost iv = includes.deep_view();
    let ghost ev = excludes.deep_view();
    if includes.len() > 0 {
        let mut found = false;
        let mut i: usize = 0;
        while i < includes.len() && !found
            invariant
                i <= includes.len(),
                iv == includes.deep_view(),
                iv.len() == includes@.len(),
                name@ == entry.file_name@,
                found ==> exists|j: int|
                    0 <= j < iv.len() && spec_include_match(entry@.file_name, #[trigger] iv[j]),
                !found ==> forall|j: int|
                    0 <= j < i ==> !spec_include_match(entry@.file_name, #[trigger] iv[j]),
            decreases includes.len() - i,
        {
            if include_match(&name, &includes[i]) {
                proof {
                    assert(iv[i as int] == includes@[i as int]@);
                }
                found = true;
            }
            i = i + 1;
        }
        if !found {
            return false;
        }
    }
    let mut i: usize = 0;
    while i < excludes.len()
        invariant
            i <= excludes.len(),
            ev == excludes.deep_view(),
            ev.len() == excludes@.len(),
            name@ == entry.file_name@,
            spec_should_extract(entry@, iv, ev) == !(exists|j: int|
                0 <= j < ev.len() && spec_exclude_match(entry@.file_name, #[trigger] ev[j])),
            forall|j: int| 0 <= j < i ==> !spec_exclude_match(entry@.file_name, #[trigger] ev[j]),
        decreases excludes.len() - i,
    {
        let pat = chars_vec(excludes[i].as_str());
        let sub = contains_seq(&name, &pat);
        let glob = if sub {
            true
        } else {
            proof {
                assert(pat@.skip(0) =~= excludes@[i as int]@);
                assert(name@.skip(0) =~= name@);
            }
            glob_match_at(&pat, 0, &name, 0)
        };
        if sub || glob {
            proof {
                assert(ev[i as int] == excludes@[i as int]@);
                assert(spec_exclude_match(entry@.file_name, ev[i as int]));
            }
            return false;
        }
        proof {
            assert(ev[i as int] == excludes@[i as int]@);
        }
        i = i + 1;
    }
    true
}

} // verus!
