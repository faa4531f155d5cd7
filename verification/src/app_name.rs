use vstd::prelude::*;

verus! {

/// A character that may appear in an application name: ASCII letters,
/// digits, `-` and `_`.
pub open spec fn is_app_name_char(c: char) -> bool {
    ||| 'a' <= c && c <= 'z'
    ||| 'A' <= c && c <= 'Z'
    ||| '0' <= c && c <= '9'
    ||| c == '-'
    ||| c == '_'
}

/// A valid application name: nonempty, made of name characters only.
pub open spec fn is_valid_app_name(s: Seq<char>) -> bool {
    &&& s.len() > 0
    &&& forall|i: int| 0 <= i < s.len() ==> is_app_name_char(#[trigger] s[i])
}

/// One character folded to lower case; characters outside `A`..`Z` are kept.
pub open spec fn lower_char(c: char) -> char {
    if 'A' <= c && c <= 'Z' {
        (((c as u32) + 32) as u8) as char
    } else {
        c
    }
}

/// The normalized form of a name: every character folded to lower case.
pub open spec fn normalized(s: Seq<char>) -> Seq<char> {
    s.map_values(|c: char| lower_char(c))
}

/// No character of `s` is an upper-case ASCII letter.
pub open spec fn is_lower_case(s: Seq<char>) -> bool {
    forall|i: int| 0 <= i < s.len() ==> lower_char(#[trigger] s[i]) == s[i]
}

/// Folding a character twice is the same as folding it once.
pub proof fn lemma_lower_char_idempotent(c: char)
    ensures
        lower_char(lower_char(c)) == lower_char(c),
{
}

/// Normalization is idempotent and its result contains no upper-case
/// ASCII letter.
pub proof fn lemma_normalized_idempotent(s: Seq<char>)
    ensures
        normalized(normalized(s)) == normalized(s),
        is_lower_case(normalized(s)),
{
    assert forall|i: int| 0 <= i < normalized(s).len() implies lower_char(
        #[trigger] normalized(s)[i],
    ) == normalized(s)[i] by {
        lemma_lower_char_idempotent(s[i]);
    }
    assert(normalized(normalized(s)) =~= normalized(s));
}

/// The lower-case image of a single upper-case ASCII letter, as a
/// one-character string.
fn lower_str_of(c: char) -> (r: &'static str)
    requires
        'A' <= c && c <= 'Z',
    ensures
        r@ =~= seq![lower_char(c)],
{
    proof {
        reveal_strlit("a");
        reveal_strlit("b");
        reveal_strlit("c");
        reveal_strlit("d");
        reveal_strlit("e");
        reveal_strlit("f");
        reveal_strlit("g");
        reveal_strlit("h");
        reveal_strlit("i");
        reveal_strlit("j");
        reveal_strlit("k");
        reveal_strlit("l");
        reveal_strlit("m");
        reveal_strlit("n");
        reveal_strlit("o");
        reveal_strlit("p");
        reveal_strlit("q");
        reveal_strlit("r");
        reveal_strlit("s");
        reveal_strlit("t");
        reveal_strlit("u");
        reveal_strlit("v");
        reveal_strlit("w");
        reveal_strlit("x");
        reveal_strlit("y");
        reveal_strlit("z");
    }
    match c {
        'A' => "a",
        'B' => "b",
        'C' => "c",
        'D' => "d",
        'E' => "e",
        'F' => "f",
        'G' => "g",
        'H' => "h",
        'I' => "i",
        'J' => "j",
        'K' => "k",
        'L' => "l",
        'M' => "m",
        'N' => "n",
        'O' => "o",
        'P' => "p",
        'Q' => "q",
        'R' => "r",
        'S' => "s",
        'T' => "t",
        'U' => "u",
        'V' => "v",
        'W' => "w",
        'X' => "x",
        'Y' => "y",
        _ => "z",
    }
}

/// Folds every character of `s` to lower case.
pub fn to_lower_case(s: &str) -> (r: String)
    ensures
        r@ == normalized(s@),
{
    let len = s.unicode_len();
    let mut r = String::new();
    for i in 0..len
        invariant
            len == s@.len(),
            r@ =~= normalized(s@.subrange(0, i as int)),
    {
        let c = s.get_char(i);
        if 'A' <= c && c <= 'Z' {
            r.append(lower_str_of(c));
        } else {
            r.append(s.substring_char(i, i + 1));
        }
        proof {
            assert(s@.subrange(0, i + 1 as int) =~= s@.subrange(0, i as int) + seq![s@[i as int]]);
            assert(r@ =~= normalized(s@.subrange(0, i + 1 as int)));
        }
    }
    proof {
        assert(s@.subrange(0, s@.len() as int) =~= s@);
    }
    r
}

/// The identifier of one application: the name under which its services
/// were requested, kept exactly as the caller supplied it.
#[derive(Clone, Debug, PartialEq, Eq, Hash)]
pub struct AppName {
    name: String,
}

impl View for AppName {
    type V = Seq<char>;

    closed spec fn view(&self) -> Seq<char> {
        self.name@
    }
}

impl AppName {
    /// Accepts `s` as an application name when it is valid.
    pub fn from_str(s: &str) -> (r: Option<AppName>)
        ensures
            r is Some <==> is_valid_app_name(s@),
            r is Some ==> r->0@ == s@,
    {
        let len = s.unicode_len();
        if len == 0 {
            return None;
        }
        for i in 0..len
            invariant
                len == s@.len(),
                forall|j: int| 0 <= j < i ==> is_app_name_char(#[trigger] s@[j]),
        {
            let c = s.get_char(i);
            let ok = ('a' <= c && c <= 'z') || ('A' <= c && c <= 'Z') || ('0' <= c && c <= '9')
                || c == '-' || c == '_';
            if !ok {
                return None;
            }
        }
        Some(AppName { name: s.to_owned() })
    }

    /// The name of the application that tracks the main branch.
    pub fn master() -> (r: AppName)
        ensures
            r@ == "master"@,
    {
        proof {
            reveal_strlit("master");
        }
        AppName { name: "master".to_owned() }
    }

    /// The name exactly as supplied, for labels and display.
    pub fn as_str(&self) -> (r: &str)
        ensures
            r@ == self@,
    {
        self.name.as_str()
    }

    /// The name as supplied, owned, for labels and display.
    pub fn to_string(&self) -> (r: String)
        ensures
            r@ == self@,
    {
        self.name.clone()
    }

    /// The backend-safe identifier: the name folded to lower case, fit for
    /// namespaces and object names whose grammar forbids upper case.
    pub fn to_rfc1123_namespace_id(&self) -> (r: String)
        ensures
            r@ == normalized(self@),
    {
        to_lower_case(self.name.as_str())
    }
}


} // verus!
