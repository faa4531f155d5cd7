use vstd::prelude::*;

verus! {

/// Whether `s` contains the separator `sep`.
pub open spec fn has_sep(s: Seq<char>, sep: char) -> bool
    decreases s.len(),
{
    if s.len() == 0 {
        false
    } else {
        s.last() == sep || has_sep(s.drop_last(), sep)
    }
}

/// The text before the last occurrence of `sep`; empty when there is none.
pub open spec fn before_last(s: Seq<char>, sep: char) -> Seq<char>
    decreases s.len(),
{
    if s.len() == 0 {
        Seq::empty()
    } else if s.last() == sep {
        s.drop_last()
    } else {
        before_last(s.drop_last(), sep)
    }
}

/// The text after the last occurrence of `sep`; the whole text when there
/// is none.
pub open spec fn after_last(s: Seq<char>, sep: char) -> Seq<char>
    decreases s.len(),
{
    if s.len() == 0 {
        Seq::empty()
    } else if s.last() == sep {
        Seq::empty()
    } else {
        after_last(s.drop_last(), sep).push(s.last())
    }
}

/// The parent of a path: the text before the last separator, `/` for a
/// path directly under the root, the empty path for a bare file name, and
/// nothing for the root or the empty path.
pub open spec fn parent_path(s: Seq<char>) -> Option<Seq<char>> {
    if !has_sep(s, '/') {
        if s.len() == 0 {
            Option::None
        } else {
            Option::Some(Seq::empty())
        }
    } else {
        let p = before_last(s, '/');
        if p.len() == 0 {
            if s.len() == 1 {
                Option::None
            } else {
                Option::Some(seq!['/'])
            }
        } else {
            Option::Some(p)
        }
    }
}

/// Every `.` replaced by `-`; all other characters kept.
pub open spec fn dash_for_dot(c: char) -> char {
    if c == '.' {
        '-'
    } else {
        c
    }
}

/// The text with every `.` replaced by `-`.
pub open spec fn dashed(s: Seq<char>) -> Seq<char> {
    s.map_values(|c: char| dash_for_dot(c))
}

/// Whether `s` ends with the path separator.
pub open spec fn ends_with_slash(s: Seq<char>) -> bool {
    s.len() > 0 && s.last() == '/'
}

/// The name derived from a path: its nonempty components, each with `.`
/// replaced by `-`, joined by `-`.
pub open spec fn name_of_path(s: Seq<char>) -> Seq<char>
    decreases s.len(),
{
    if s.len() == 0 {
        Seq::empty()
    } else if s.last() == '/' {
        name_of_path(s.drop_last())
    } else {
        let rest = name_of_path(s.drop_last());
        if ends_with_slash(s.drop_last()) && rest.len() > 0 {
            rest + seq!['-', dash_for_dot(s.last())]
        } else {
            rest.push(dash_for_dot(s.last()))
        }
    }
}

/// A text without the separator is its own last segment and has nothing
/// before the separator.
pub proof fn lemma_no_sep(s: Seq<char>, sep: char)
    requires
        forall|k: int| 0 <= k < s.len() ==> s[k] != sep,
    ensures
        !has_sep(s, sep),
        after_last(s, sep) =~= s,
        before_last(s, sep) =~= Seq::<char>::empty(),
    decreases s.len(),
{
    if s.len() > 0 {
        lemma_no_sep(s.drop_last(), sep);
    }
}

/// An occurrence of the separator shows that the text has one.
pub proof fn lemma_has_sep_witness(s: Seq<char>, sep: char, k: int)
    requires
        0 <= k < s.len(),
        s[k] == sep,
    ensures
        has_sep(s, sep),
    decreases s.len(),
{
    if k < s.len() - 1 {
        lemma_has_sep_witness(s.drop_last(), sep, k);
    }
}

/// Splitting at the last occurrence of the separator: the text before it
/// and the text after it.
pub proof fn lemma_split_at_last(s: Seq<char>, sep: char, i: int)
    requires
        0 <= i < s.len(),
        s[i] == sep,
        forall|k: int| i < k < s.len() ==> s[k] != sep,
    ensures
        has_sep(s, sep),
        before_last(s, sep) =~= s.subrange(0, i),
        after_last(s, sep) =~= s.subrange(i + 1, s.len() as int),
    decreases s.len(),
{
    if i == s.len() - 1 {
        assert(s.last() == sep);
        assert(s.drop_last() =~= s.subrange(0, i));
    } else {
        assert(s.last() != sep);
        lemma_split_at_last(s.drop_last(), sep, i);
        assert(s.drop_last().subrange(0, i) =~= s.subrange(0, i));
        assert(s.drop_last().subrange(i + 1, s.drop_last().len() as int) =~= s.subrange(
            i + 1,
            s.len() - 1,
        ));
        assert(after_last(s, sep) =~= after_last(s.drop_last(), sep).push(s.last()));
    }
}

/// The index of the last occurrence of `sep` in `s`, where one exists.
pub fn find_last(s: &str, sep: char) -> (r: Option<usize>)
    ensures
        match r {
            Option::Some(i) => {
                &&& i < s@.len()
                &&& s@[i as int] == sep
                &&& forall|k: int| i < k < s@.len() ==> s@[k] != sep
            },
            Option::None => forall|k: int| 0 <= k < s@.len() ==> s@[k] != sep,
        },
{
    let len = s.unicode_len();
    let mut j = len;
    while j > 0
        invariant
            j <= len,
            len == s@.len(),
            forall|k: int| j <= k < s@.len() ==> s@[k] != sep,
        decreases j,
    {
        j = j - 1;
        if s.get_char(j) == sep {
            return Some(j);
        }
    }
    None
}

/// The text after the last separator of `path`; the whole text when there
/// is none.
pub fn file_name_of(path: &str) -> (r: String)
    ensures
        r@ == after_last(path@, '/'),
{
    let len = path.unicode_len();
    match find_last(path, '/') {
        Some(i) => {
            let r = path.substring_char(i + 1, len).to_owned();
            proof {
                lemma_split_at_last(path@, '/', i as int);
            }
            r
        },
        None => {
            let r = path.to_owned();
            proof {
                lemma_no_sep(path@, '/');
            }
            r
        },
    }
}

/// The parent of `path`, as `parent_path` gives it.
pub fn parent_of(path: &str) -> (r: Option<String>)
    ensures
        match r {
            Option::Some(p) => parent_path(path@) == Option::Some(p@),
            Option::None => parent_path(path@) is None,
        },
{
    let len = path.unicode_len();
    match find_last(path, '/') {
        Some(i) => {
            proof {
                lemma_split_at_last(path@, '/', i as int);
            }
            if i == 0 {
                if len == 1 {
                    None
                } else {
                    let r = String::from_str("/");
                    proof {
                        reveal_strlit("/");
                        assert(r@ =~= seq!['/']);
                    }
                    Some(r)
                }
            } else {
                Some(path.substring_char(0, i).to_owned())
            }
        },
        None => {
            proof {
                lemma_no_sep(path@, '/');
            }
            if len == 0 {
                None
            } else {
                Some(String::new())
            }
        },
    }
}

/// The text with every `.` replaced by `-`.
pub fn dashed_exec(s: &str) -> (r: String)
    ensures
        r@ == dashed(s@),
{
    let len = s.unicode_len();
    let mut r = String::new();
    for i in 0..len
        invariant
            len == s@.len(),
            r@ =~= dashed(s@.subrange(0, i as int)),
    {
        let c = s.get_char(i);
        if c == '.' {
            r.append("-");
        } else {
            r.append(s.substring_char(i, i + 1));
        }
        proof {
            reveal_strlit("-");
            assert(r@ =~= dashed(s@.subrange(0, i + 1 as int)));
        }
    }
    proof {
        assert(s@.subrange(0, s@.len() as int) =~= s@);
    }
    r
}

/// The key under which a mounted file is stored in its generated secret:
/// the file name with `.` replaced by `-`.
pub fn secret_name_from_name(path: &str) -> (r: String)
    ensures
        r@ == dashed(after_last(path@, '/')),
{
    let name = file_name_of(path);
    dashed_exec(name.as_str())
}

/// The name of the volume generated for a directory of mounted files: the
/// path's nonempty components, each with `.` replaced by `-`, joined by
/// `-`.
pub fn secret_name_from_path(path: &str) -> (r: String)
    ensures
        r@ == name_of_path(path@),
{
    let len = path.unicode_len();
    let mut r = String::new();
    let mut emitted = false;
    for i in 0..len
        invariant
            len == path@.len(),
            r@ =~= name_of_path(path@.subrange(0, i as int)),
            emitted <==> r@.len() > 0,
    {
        let c = path.get_char(i);
        if c != '/' {
            let prev_slash = i > 0 && path.get_char(i - 1) == '/';
            if prev_slash && emitted {
                r.append("-");
            }
            if c == '.' {
                r.append("-");
            } else {
                r.append(path.substring_char(i, i + 1));
            }
            emitted = true;
        }
        proof {
            reveal_strlit("-");
            let pre = path@.subrange(0, i as int);
            let cur = path@.subrange(0, i + 1 as int);
            assert(cur.drop_last() =~= pre);
            assert(cur.last() == path@[i as int]);
            assert(r@ =~= name_of_path(cur));
        }
    }
    proof {
        assert(path@.subrange(0, path@.len() as int) =~= path@);
    }
    r
}

} // verus!
