//! The library's model of filesystem paths: plain strings with `/` as the
//! separator. These helpers define, and compute, the final component of a
//! path, its stem and extension, its parent, and the joining of a directory
//! with a child name.

use vstd::prelude::*;
use crate::strtext::contains_spec;

verus! {

/// `s` without its trailing slashes.
pub open spec fn trim_trailing_slashes(s: Seq<char>) -> Seq<char>
    decreases s.len(),
{
    if s.len() > 0 && s.last() == '/' {
        trim_trailing_slashes(s.drop_last())
    } else {
        s
    }
}

/// The characters of `s` after its last slash; all of `s` when it has none.
pub open spec fn suffix_after_last_slash(s: Seq<char>) -> Seq<char>
    decreases s.len(),
{
    if s.len() == 0 {
        s
    } else if s.last() == '/' {
        Seq::empty()
    } else {
        suffix_after_last_slash(s.drop_last()).push(s.last())
    }
}

/// The characters of `s` before its last slash; all of `s` when it has none.
pub open spec fn prefix_before_last_slash(s: Seq<char>) -> Seq<char>
    decreases s.len(),
{
    if s.len() == 0 {
        s
    } else if s.last() == '/' {
        s.drop_last()
    } else {
        prefix_before_last_slash(s.drop_last())
    }
}

/// The characters of `s` after its last dot; all of `s` when it has none.
pub open spec fn suffix_after_last_dot(s: Seq<char>) -> Seq<char>
    decreases s.len(),
{
    if s.len() == 0 {
        s
    } else if s.last() == '.' {
        Seq::empty()
    } else {
        suffix_after_last_dot(s.drop_last()).push(s.last())
    }
}

/// The final component of a path: what remains after trailing slashes and
/// everything up to the last slash are removed. `None` when nothing remains
/// or the component is `..`.
pub open spec fn file_name_spec(path: Seq<char>) -> Option<Seq<char>> {
    let name = suffix_after_last_slash(trim_trailing_slashes(path));
    if name.len() == 0 || name == seq!['.', '.'] {
        None
    } else {
        Some(name)
    }
}

/// The extension of a path's final component: the part after its last dot,
/// provided the dot is neither the component's first character nor absent.
pub open spec fn extension_spec(path: Seq<char>) -> Option<Seq<char>> {
    match file_name_spec(path) {
        Option::None => Option::None,
        Option::Some(name) => {
            let ext = suffix_after_last_dot(name);
            if ext.len() < name.len() && ext.len() + 1 < name.len() {
                Some(ext)
            } else {
                None
            }
        },
    }
}

/// The stem of a path's final component: the component without its extension
/// and without the dot that introduced it.
pub open spec fn file_stem_spec(path: Seq<char>) -> Option<Seq<char>> {
    match file_name_spec(path) {
        Option::None => Option::None,
        Option::Some(name) => match extension_spec(path) {
            Option::None => Some(name),
            Option::Some(ext) => Some(name.subrange(0, name.len() - ext.len() - 1)),
        },
    }
}

/// The parent of a path: the part before the final component. The root `/`
/// is its own boundary and has no parent; a bare name's parent is the empty
/// path; a name directly under the root has parent `/`.
pub open spec fn parent_spec(path: Seq<char>) -> Option<Seq<char>> {
    let t = trim_trailing_slashes(path);
    if t.len() == 0 {
        None
    } else if !contains_spec(t, seq!['/']) {
        Some(Seq::empty())
    } else {
        let p = prefix_before_last_slash(t);
        let q = trim_trailing_slashes(p);
        if q.len() == 0 {
            Some(seq!['/'])
        } else {
            Some(q)
        }
    }
}

/// A directory joined with a child name by a single slash.
pub open spec fn join_spec(dir: Seq<char>, name: Seq<char>) -> Seq<char> {
    if dir.len() == 0 {
        name
    } else if dir.last() == '/' {
        dir + name
    } else {
        dir + seq!['/'] + name
    }
}

/// After the last slash the recursive suffix is exactly the tail subrange.
proof fn lemma_suffix_at(s: Seq<char>, i: int)
    requires
        0 <= i < s.len(),
        s[i] == '/',
        forall|j: int| i < j < s.len() ==> s[j] != '/',
    ensures
        suffix_after_last_slash(s) =~= s.subrange(i + 1, s.len() as int),
    decreases s.len(),
{
    if i == s.len() - 1 {
        assert(s.last() == '/');
    } else {
        assert(s.last() != '/');
        lemma_suffix_at(s.drop_last(), i);
        assert(s.drop_last().subrange(i + 1, s.len() - 1) =~= s.subrange(i + 1, s.len() - 1));
        assert(suffix_after_last_slash(s) =~= s.subrange(i + 1, s.len() - 1).push(s.last()));
    }
}

/// With no slash anywhere, the recursive suffix is the whole sequence.
proof fn lemma_suffix_none(s: Seq<char>)
    requires
        forall|j: int| 0 <= j < s.len() ==> s[j] != '/',
    ensures
        suffix_after_last_slash(s) =~= s,
    decreases s.len(),
{
    if s.len() > 0 {
        lemma_suffix_none(s.drop_last());
    }
}

/// Before the last slash the recursive prefix is exactly the head subrange.
proof fn lemma_prefix_at(s: Seq<char>, i: int)
    requires
        0 <= i < s.len(),
        s[i] == '/',
        forall|j: int| i < j < s.len() ==> s[j] != '/',
    ensures
        prefix_before_last_slash(s) =~= s.subrange(0, i),
    decreases s.len(),
{
    if i == s.len() - 1 {
        assert(s.drop_last() =~= s.subrange(0, i));
    } else {
        assert(s.last() != '/');
        lemma_prefix_at(s.drop_last(), i);
        assert(s.drop_last().subrange(0, i) =~= s.subrange(0, i));
    }
}

/// The analogous correspondence for dots, used by the extension helpers.
proof fn lemma_dot_suffix_at(s: Seq<char>, i: int)
    requires
        0 <= i < s.len(),
        s[i] == '.',
        forall|j: int| i < j < s.len() ==> s[j] != '.',
    ensures
        suffix_after_last_dot(s) =~= s.subrange(i + 1, s.len() as int),
    decreases s.len(),
{
    if i == s.len() - 1 {
        assert(s.last() == '.');
    } else {
        assert(s.last() != '.');
        lemma_dot_suffix_at(s.drop_last(), i);
        assert(s.drop_last().subrange(i + 1, s.len() - 1) =~= s.subrange(i + 1, s.len() - 1));
        assert(suffix_after_last_dot(s) =~= s.subrange(i + 1, s.len() - 1).push(s.last()));
    }
}

/// With no dot anywhere, the recursive dot suffix is the whole sequence.
proof fn lemma_dot_suffix_none(s: Seq<char>)
    requires
        forall|j: int| 0 <= j < s.len() ==> s[j] != '.',
    ensures
        suffix_after_last_dot(s) =~= s,
    decreases s.len(),
{
    if s.len() > 0 {
        lemma_dot_suffix_none(s.drop_last());
    }
}

/// `path` without trailing slashes, as a borrowed slice.
fn trim_trailing(path: &str) -> (r: &str)
    ensures
        r@ =~= trim_trailing_slashes(path@),
    decreases path@.len(),
{
    let n = path.unicode_len();
    if n > 0 && path.get_char(n - 1) == '/' {
        let shorter = path.substring_char(0, n - 1);
        proof {
            assert(shorter@ =~= path@.drop_last());
        }
        trim_trailing(shorter)
    } else {
        path
    }
}

/// The index just past the last slash of `s`, or 0 when it has none.
fn scan_past_last_slash(s: &str) -> (r: usize)
    ensures
        r <= s@.len(),
        r > 0 ==> s@[r as int - 1] == '/',
        forall|j: int| r <= j < s@.len() ==> s@[j] != '/',
{
    let n = s.unicode_len();
    let mut k: usize = n;
    while k > 0
        invariant
            k <= n,
            n == s@.len(),
            forall|j: int| k <= j < s@.len() ==> s@[j] != '/',
        decreases k,
    {
        if s.get_char(k - 1) == '/' {
            return k;
        }
        k = k - 1;
    }
    0
}

/// The index just past the last dot of `s`, or 0 when it has none.
fn scan_past_last_dot(s: &str) -> (r: usize)
    ensures
        r <= s@.len(),
        r > 0 ==> s@[r as int - 1] == '.',
        forall|j: int| r <= j < s@.len() ==> s@[j] != '.',
{
    let n = s.unicode_len();
    let mut k: usize = n;
    while k > 0
        invariant
            k <= n,
            n == s@.len(),
            forall|j: int| k <= j < s@.len() ==> s@[j] != '.',
        decreases k,
    {
        if s.get_char(k - 1) == '.' {
            return k;
        }
        k = k - 1;
    }
    0
}

/// The final component of `path`, per `file_name_spec`.
pub fn file_name_of(path: &String) -> (r: Option<String>)
    ensures
        match r {
            Option::Some(name) => file_name_spec(path@) == Option::Some(name@),
            Option::None => file_name_spec(path@) == Option::<Seq<char>>::None,
        },
{
    let t = trim_trailing(path.as_str());
    let n = t.unicode_len();
    let p = scan_past_last_slash(t);
    proof {
        if p > 0 {
            lemma_suffix_at(t@, p as int - 1);
        } else {
            lemma_suffix_none(t@);
        }
    }
    let name = t.substring_char(p, n);
    proof {
        assert(name@ =~= suffix_after_last_slash(trim_trailing_slashes(path@)));
    }
    if name.unicode_len() == 0 {
        return None;
    }
    if name.unicode_len() == 2 && name.get_char(0) == '.' && name.get_char(1) == '.' {
        proof {
            assert(name@ =~= seq!['.', '.']);
        }
        return None;
    }
    Some(name.to_owned())
}

/// The extension of `path`'s final component, per `extension_spec`.
pub fn extension_of(path: &String) -> (r: Option<String>)
    ensures
        match r {
            Option::Some(ext) => extension_spec(path@) == Option::Some(ext@),
            Option::None => extension_spec(path@) == Option::<Seq<char>>::None,
        },
{
    let name_opt = file_name_of(path);
    match name_opt {
        None => None,
        Some(name) => {
            let n = name.as_str().unicode_len();
            let p = scan_past_last_dot(name.as_str());
            proof {
                if p > 0 {
                    lemma_dot_suffix_at(name@, p as int - 1);
                } else {
                    lemma_dot_suffix_none(name@);
                }
            }
            if p >= 2 {
                let ext = name.as_str().substring_char(p, n);
                proof {
                    assert(ext@ =~= suffix_after_last_dot(name@));
                }
                Some(ext.to_owned())
            } else {
                None
            }
        },
    }
}

/// The stem of `path`'s final component, per `file_stem_spec`.
pub fn file_stem_of(path: &String) -> (r: Option<String>)
    ensures
        match r {
            Option::Some(stem) => file_stem_spec(path@) == Option::Some(stem@),
            Option::None => file_stem_spec(path@) == Option::<Seq<char>>::None,
        },
{
    let name_opt = file_name_of(path);
    match name_opt {
        None => None,
        Some(name) => {
            let n = name.as_str().unicode_len();
            let p = scan_past_last_dot(name.as_str());
            proof {
                if p > 0 {
                    lemma_dot_suffix_at(name@, p as int - 1);
                } else {
                    lemma_dot_suffix_none(name@);
                }
            }
            if p >= 2 {
                let stem = name.as_str().substring_char(0, p - 1);
                proof {
                    assert(stem@ =~= name@.subrange(
                        0,
                        name@.len() - suffix_after_last_dot(name@).len() - 1,
                    ));
                }
                Some(stem.to_owned())
            } else {
                Some(name)
            }
        },
    }
}

/// The parent of `path`, per `parent_spec`.
pub fn parent_of(path: &String) -> (r: Option<String>)
    ensures
        match r {
            Option::Some(p) => parent_spec(path@) == Option::Some(p@),
            Option::None => parent_spec(path@) == Option::<Seq<char>>::None,
        },
{
    let t = trim_trailing(path.as_str());
    let n = t.unicode_len();
    if n == 0 {
        return None;
    }
    let p = scan_past_last_slash(t);
    if p == 0 {
        proof {
            lemma_no_slash_not_contains(t@);
            reveal_strlit("");
        }
        return Some("".to_owned());
    }
    proof {
        lemma_slash_contains(t@, p as int - 1);
        lemma_prefix_at(t@, p as int - 1);
    }
    let head = t.substring_char(0, p - 1);
    proof {
        assert(head@ =~= prefix_before_last_slash(t@));
    }
    let q = trim_trailing(head);
    if q.unicode_len() == 0 {
        proof {
            reveal_strlit("/");
            assert("/"@ =~= seq!['/']);
        }
        return Some("/".to_owned());
    }
    Some(q.to_owned())
}

/// A sequence without slashes does not contain the slash singleton.
proof fn lemma_no_slash_not_contains(s: Seq<char>)
    requires
        forall|j: int| 0 <= j < s.len() ==> s[j] != '/',
    ensures
        !contains_spec(s, seq!['/']),
{
    assert forall|i: int| !crate::strtext::occurs_at(s, seq!['/'], i) by {
        if 0 <= i && i + 1 <= s.len() {
            assert(s.subrange(i, i + 1)[0] == s[i]);
        }
    }
}

/// A sequence with a slash at `i` contains the slash singleton.
proof fn lemma_slash_contains(s: Seq<char>, i: int)
    requires
        0 <= i < s.len(),
        s[i] == '/',
    ensures
        contains_spec(s, seq!['/']),
{
    assert(s.subrange(i, i + 1) =~= seq!['/']);
    assert(crate::strtext::occurs_at(s, seq!['/'], i));
}

/// `dir` joined with `name`, per `join_spec`.
pub fn join_path(dir: &String, name: &String) -> (r: String)
    ensures
        r@ == join_spec(dir@, name@),
{
    let n = dir.as_str().unicode_len();
    if n == 0 {
        name.clone()
    } else if dir.as_str().get_char(n - 1) == '/' {
        let r = dir.clone().concat(name.as_str());
        r
    } else {
        proof {
            reveal_strlit("/");
            assert("/"@ =~= seq!['/']);
        }
        let r = dir.clone().concat("/").concat(name.as_str());
        proof {
            assert(r@ =~= dir@ + seq!['/'] + name@);
        }
        r
    }
}

} // verus!
