use vstd::prelude::*;

verus! {

/// A JSON document, as this library models it: the payload of an inline
/// middleware specification and the content of generated credential
/// secrets. Numbers are restricted to integers.
#[derive(Debug, PartialEq, Eq)]
pub enum JsonValue {
    Null,
    Bool(bool),
    Int(i64),
    Str(String),
    Arr(Vec<JsonValue>),
    Obj(Vec<(String, JsonValue)>),
}

/// The mathematical form of a JSON document.
#[verifier::ext_equal]
pub enum JsonView {
    Null,
    Bool(bool),
    Int(int),
    Str(Seq<char>),
    Arr(Seq<JsonView>),
    Obj(Seq<(Seq<char>, JsonView)>),
}

/// The mathematical form of a `JsonValue`.
pub open spec fn json_view(v: JsonValue) -> JsonView
    decreases v,
{
    match v {
        JsonValue::Null => JsonView::Null,
        JsonValue::Bool(b) => JsonView::Bool(b),
        JsonValue::Int(n) => JsonView::Int(n as int),
        JsonValue::Str(s) => JsonView::Str(s@),
        JsonValue::Arr(items) => JsonView::Arr(json_view_seq(items@)),
        JsonValue::Obj(entries) => JsonView::Obj(json_view_entries(entries@)),
    }
}

/// The mathematical forms of the items of an array.
pub open spec fn json_view_seq(items: Seq<JsonValue>) -> Seq<JsonView>
    decreases items,
{
    if items.len() == 0 {
        Seq::empty()
    } else {
        json_view_seq(items.drop_last()).push(json_view(items.last()))
    }
}

/// The mathematical forms of the members of an object.
pub open spec fn json_view_entries(entries: Seq<(String, JsonValue)>) -> Seq<
    (Seq<char>, JsonView),
>
    decreases entries,
{
    if entries.len() == 0 {
        Seq::empty()
    } else {
        json_view_entries(entries.drop_last()).push(
            (entries.last().0@, json_view(entries.last().1)),
        )
    }
}

impl View for JsonValue {
    type V = JsonView;

    open spec fn view(&self) -> JsonView {
        json_view(*self)
    }
}

/// The serialized form of one character inside a JSON string literal:
/// quotes and backslashes are escaped, every other character stands as
/// itself.
pub open spec fn escape_char(c: char) -> Seq<char> {
    if c == '"' {
        seq!['\\', '"']
    } else if c == '\\' {
        seq!['\\', '\\']
    } else {
        seq![c]
    }
}

/// The serialized body of a JSON string literal.
pub open spec fn escaped(s: Seq<char>) -> Seq<char>
    decreases s.len(),
{
    if s.len() == 0 {
        Seq::empty()
    } else {
        escaped(s.drop_last()) + escape_char(s.last())
    }
}

/// A JSON string literal: the escaped body between double quotes.
pub open spec fn string_text(s: Seq<char>) -> Seq<char> {
    seq!['"'] + escaped(s) + seq!['"']
}

/// The decimal digit `d` as a character.
pub open spec fn digit_char(d: nat) -> char {
    ((48 + d) as u8) as char
}

/// The decimal numeral of `n`, most significant digit first.
pub open spec fn dec_chars(n: nat) -> Seq<char>
    decreases n,
{
    if n < 10 {
        seq![digit_char(n)]
    } else {
        dec_chars(n / 10) + seq![digit_char(n % 10)]
    }
}

/// The decimal numeral of a possibly negative integer.
pub open spec fn int_chars(n: int) -> Seq<char> {
    if n >= 0 {
        dec_chars(n as nat)
    } else {
        seq!['-'] + dec_chars((-n) as nat)
    }
}

/// The serialized text of a JSON value.
pub open spec fn json_text(v: JsonView) -> Seq<char>
    decreases v,
{
    match v {
        JsonView::Null => seq!['n', 'u', 'l', 'l'],
        JsonView::Bool(b) => if b {
            seq!['t', 'r', 'u', 'e']
        } else {
            seq!['f', 'a', 'l', 's', 'e']
        },
        JsonView::Int(n) => int_chars(n),
        JsonView::Str(s) => string_text(s),
        JsonView::Arr(items) => seq!['['] + json_arr_text(items) + seq![']'],
        JsonView::Obj(entries) => seq!['{'] + json_obj_text(entries) + seq!['}'],
    }
}

/// The comma-separated texts of the items of a JSON array.
pub open spec fn json_arr_text(items: Seq<JsonView>) -> Seq<char>
    decreases items,
{
    if items.len() == 0 {
        Seq::empty()
    } else if items.len() == 1 {
        json_text(items.last())
    } else {
        json_arr_text(items.drop_last()) + seq![','] + json_text(items.last())
    }
}

/// The comma-separated `"key":value` texts of the members of a JSON object.
pub open spec fn json_obj_text(entries: Seq<(Seq<char>, JsonView)>) -> Seq<char>
    decreases entries,
{
    if entries.len() == 0 {
        Seq::empty()
    } else if entries.len() == 1 {
        member_text(entries.last())
    } else {
        json_obj_text(entries.drop_last()) + seq![','] + member_text(entries.last())
    }
}

/// The text of one object member: the key as a string literal, a colon,
/// the value.
pub open spec fn member_text(entry: (Seq<char>, JsonView)) -> Seq<char>
    decreases entry,
{
    string_text(entry.0) + seq![':'] + json_text(entry.1)
}

proof fn lemma_json_view_seq_len(items: Seq<JsonValue>)
    ensures
        json_view_seq(items).len() == items.len(),
    decreases items,
{
    if items.len() > 0 {
        lemma_json_view_seq_len(items.drop_last());
    }
}

proof fn lemma_json_view_entries_len(entries: Seq<(String, JsonValue)>)
    ensures
        json_view_entries(entries).len() == entries.len(),
    decreases entries,
{
    if entries.len() > 0 {
        lemma_json_view_entries_len(entries.drop_last());
    }
}


proof fn lemma_json_view_seq_index(items: Seq<JsonValue>, i: int)
    requires
        0 <= i < items.len(),
    ensures
        json_view_seq(items).len() == items.len(),
        json_view_seq(items)[i] == json_view(items[i]),
    decreases items,
{
    lemma_json_view_seq_len(items);
    if i < items.len() - 1 {
        lemma_json_view_seq_index(items.drop_last(), i);
    }
}

proof fn lemma_json_view_entries_index(entries: Seq<(String, JsonValue)>, i: int)
    requires
        0 <= i < entries.len(),
    ensures
        json_view_entries(entries).len() == entries.len(),
        json_view_entries(entries)[i] == (entries[i].0@, json_view(entries[i].1)),
    decreases entries,
{
    lemma_json_view_entries_len(entries);
    if i < entries.len() - 1 {
        lemma_json_view_entries_index(entries.drop_last(), i);
    }
}

/// The decimal digit `d`, as a one-character string.
fn digit_str(d: u64) -> (r: &'static str)
    requires
        d < 10,
    ensures
        r@ =~= seq![digit_char(d as nat)],
{
    proof {
        reveal_strlit("0");
        reveal_strlit("1");
        reveal_strlit("2");
        reveal_strlit("3");
        reveal_strlit("4");
        reveal_strlit("5");
        reveal_strlit("6");
        reveal_strlit("7");
        reveal_strlit("8");
        reveal_strlit("9");
    }
    match d {
        0 => "0",
        1 => "1",
        2 => "2",
        3 => "3",
        4 => "4",
        5 => "5",
        6 => "6",
        7 => "7",
        8 => "8",
        _ => "9",
    }
}

/// Writes the decimal numeral of `n`.
fn u64_to_dec(n: u64) -> (r: String)
    ensures
        r@ == dec_chars(n as nat),
    decreases n,
{
    if n < 10 {
        digit_str(n).to_owned()
    } else {
        let mut r = u64_to_dec(n / 10);
        r.append(digit_str(n % 10));
        r
    }
}

/// Writes the decimal numeral of `n`, with a sign where it is negative.
fn i64_to_dec(n: i64) -> (r: String)
    ensures
        r@ == int_chars(n as int),
{
    if n >= 0 {
        u64_to_dec(n as u64)
    } else {
        let magnitude: u64 = (-(n as i128)) as u64;
        let mut r = String::new();
        r.append("-");
        r.append(u64_to_dec(magnitude).as_str());
        proof {
            reveal_strlit("-");
            assert(r@ =~= int_chars(n as int));
        }
        r
    }
}

/// Writes the body of a JSON string literal, escaping quotes and
/// backslashes.
fn escaped_exec(s: &str) -> (r: String)
    ensures
        r@ == escaped(s@),
{
    let len = s.unicode_len();
    let mut r = String::new();
    for i in 0..len
        invariant
            len == s@.len(),
            r@ == escaped(s@.subrange(0, i as int)),
    {
        let c = s.get_char(i);
        if c == '"' {
            r.append("\\\"");
        } else if c == '\\' {
            r.append("\\\\");
        } else {
            r.append(s.substring_char(i, i + 1));
        }
        proof {
            reveal_strlit("\\\"");
            reveal_strlit("\\\\");
            assert(s@.subrange(0, i + 1 as int).drop_last() =~= s@.subrange(0, i as int));
            assert(s@.subrange(0, i + 1 as int).last() == s@[i as int]);
            assert(r@ =~= escaped(s@.subrange(0, i + 1 as int)));
        }
    }
    proof {
        assert(s@.subrange(0, s@.len() as int) =~= s@);
    }
    r
}

/// Writes a JSON string literal.
fn string_text_exec(s: &str) -> (r: String)
    ensures
        r@ == string_text(s@),
{
    let mut r = String::new();
    r.append("\"");
    r.append(escaped_exec(s).as_str());
    r.append("\"");
    proof {
        reveal_strlit("\"");
        assert(r@ =~= string_text(s@));
    }
    r
}

impl JsonValue {
    /// A copy of the value, equal to it in its mathematical form.
    #[verifier::loop_isolation(false)]
    pub fn duplicate(&self) -> (r: JsonValue)
        ensures
            r@ == self@,
        decreases *self,
    {
        match self {
            JsonValue::Null => JsonValue::Null,
            JsonValue::Bool(b) => JsonValue::Bool(*b),
            JsonValue::Int(n) => JsonValue::Int(*n),
            JsonValue::Str(s) => JsonValue::Str(s.clone()),
            JsonValue::Arr(items) => {
                let mut copies: Vec<JsonValue> = Vec::new();
                for i in 0..items.len()
                    invariant
                        *self == JsonValue::Arr(*items),
                        json_view_seq(copies@) =~= json_view_seq(items@.subrange(0, i as int)),
                    decreases items.len() - i,
                {
                    proof {
                        assert(decreases_to!(*self => items@));
                        assert(decreases_to!(items@ => items@[i as int]));
                        assert(decreases_to!(*self => items@[i as int]));
                    }
                    let ghost prefix = copies@;
                    copies.push(items[i].duplicate());
                    proof {
                        assert(copies@.drop_last() =~= prefix);
                        assert(items@.subrange(0, i + 1 as int).drop_last() =~= items@.subrange(
                            0,
                            i as int,
                        ));
                        assert(items@.subrange(0, i + 1 as int).last() == items@[i as int]);
                        assert(json_view_seq(copies@) =~= json_view_seq(
                            items@.subrange(0, i + 1 as int),
                        ));
                    }
                }
                proof {
                    assert(items@.subrange(0, items@.len() as int) =~= items@);
                }
                JsonValue::Arr(copies)
            },
            JsonValue::Obj(entries) => {
                let mut copies: Vec<(String, JsonValue)> = Vec::new();
                for i in 0..entries.len()
                    invariant
                        *self == JsonValue::Obj(*entries),
                        json_view_entries(copies@) =~= json_view_entries(
                            entries@.subrange(0, i as int),
                        ),
                    decreases entries.len() - i,
                {
                    proof {
                        assert(decreases_to!(*self => entries@));
                        assert(decreases_to!(entries@ => entries@[i as int]));
                        assert(decreases_to!(entries@[i as int] => entries@[i as int].1));
                        assert(decreases_to!(*self => entries@[i as int].1));
                    }
                    let ghost prefix = copies@;
                    copies.push((entries[i].0.clone(), entries[i].1.duplicate()));
                    proof {
                        assert(copies@.drop_last() =~= prefix);
                        assert(entries@.subrange(0, i + 1 as int).drop_last() =~= entries@.subrange(
                            0,
                            i as int,
                        ));
                        assert(entries@.subrange(0, i + 1 as int).last() == entries@[i as int]);
                        assert(json_view_entries(copies@) =~= json_view_entries(
                            entries@.subrange(0, i + 1 as int),
                        ));
                    }
                }
                proof {
                    assert(entries@.subrange(0, entries@.len() as int) =~= entries@);
                }
                JsonValue::Obj(copies)
            },
        }
    }


    /// Whether two values are equal in their mathematical form.
    #[verifier::loop_isolation(false)]
    pub fn deep_eq(&self, other: &JsonValue) -> (r: bool)
        ensures
            r == (self@ == other@),
        decreases *self,
    {
        match self {
            JsonValue::Null => match other {
                JsonValue::Null => true,
                _ => false,
            },
            JsonValue::Bool(a) => match other {
                JsonValue::Bool(b) => *a == *b,
                _ => false,
            },
            JsonValue::Int(a) => match other {
                JsonValue::Int(b) => *a == *b,
                _ => false,
            },
            JsonValue::Str(a) => match other {
                JsonValue::Str(b) => *a == *b,
                _ => false,
            },
            JsonValue::Arr(items) => match other {
                JsonValue::Arr(others) => {
                    if items.len() != others.len() {
                        proof {
                            lemma_json_view_seq_len(items@);
                            lemma_json_view_seq_len(others@);
                        }
                        return false;
                    }
                    for i in 0..items.len()
                        invariant
                            forall|k: int|
                                0 <= k < i ==> json_view_seq(items@)[k] == json_view_seq(
                                    others@,
                                )[k],
                        decreases items.len() - i,
                    {
                        proof {
                            assert(decreases_to!(*self => items@));
                            assert(decreases_to!(items@ => items@[i as int]));
                            lemma_json_view_seq_index(items@, i as int);
                            lemma_json_view_seq_index(others@, i as int);
                        }
                        if !items[i].deep_eq(&others[i]) {
                            proof {
                                assert(json_view_seq(items@)[i as int] != json_view_seq(
                                    others@,
                                )[i as int]);
                            }
                            return false;
                        }
                    }
                    proof {
                        lemma_json_view_seq_len(items@);
                        lemma_json_view_seq_len(others@);
                        assert(json_view_seq(items@) =~= json_view_seq(others@));
                    }
                    true
                },
                _ => false,
            },
            JsonValue::Obj(entries) => match other {
                JsonValue::Obj(others) => {
                    if entries.len() != others.len() {
                        proof {
                            lemma_json_view_entries_len(entries@);
                            lemma_json_view_entries_len(others@);
                        }
                        return false;
                    }
                    for i in 0..entries.len()
                        invariant
                            forall|k: int|
                                0 <= k < i ==> json_view_entries(entries@)[k]
                                    == json_view_entries(others@)[k],
                        decreases entries.len() - i,
                    {
                        proof {
                            assert(decreases_to!(*self => entries@));
                            assert(decreases_to!(entries@ => entries@[i as int]));
                            assert(decreases_to!(entries@[i as int] => entries@[i as int].1));
                            lemma_json_view_entries_index(entries@, i as int);
                            lemma_json_view_entries_index(others@, i as int);
                        }
                        let keys_equal = entries[i].0 == others[i].0;
                        if !keys_equal || !entries[i].1.deep_eq(&others[i].1) {
                            proof {
                                assert(json_view_entries(entries@)[i as int]
                                    != json_view_entries(others@)[i as int]);
                            }
                            return false;
                        }
                    }
                    proof {
                        lemma_json_view_entries_len(entries@);
                        lemma_json_view_entries_len(others@);
                        assert(json_view_entries(entries@) =~= json_view_entries(others@));
                    }
                    true
                },
                _ => false,
            },
        }
    }

    /// Serializes the value as compact JSON text.
    #[verifier::loop_isolation(false)]
    #[verifier::rlimit(60)]
    pub fn to_json_string(&self) -> (r: String)
        ensures
            r@ == json_text(self@),
        decreases *self,
    {
        match self {
            JsonValue::Null => {
                proof {
                    reveal_strlit("null");
                }
                let r = String::from_str("null");
                proof {
                    assert(r@ =~= json_text(self@));
                }
                r
            },
            JsonValue::Bool(b) => {
                proof {
                    reveal_strlit("true");
                    reveal_strlit("false");
                }
                let r = if *b {
                    String::from_str("true")
                } else {
                    String::from_str("false")
                };
                proof {
                    assert(r@ =~= json_text(self@));
                }
                r
            },
            JsonValue::Int(n) => i64_to_dec(*n),
            JsonValue::Str(s) => string_text_exec(s.as_str()),
            JsonValue::Arr(items) => {
                proof {
                    reveal_strlit("[");
                }
                let mut r = String::from_str("[");
                for i in 0..items.len()
                    invariant
                        *self == JsonValue::Arr(*items),
                        r@ == seq!['['] + json_arr_text(json_view_seq(items@.subrange(0, i as int))),
                    decreases items.len() - i,
                {
                    proof {
                        assert(decreases_to!(*self => items@));
                        assert(decreases_to!(items@ => items@[i as int]));
                        assert(decreases_to!(*self => items@[i as int]));
                    }
                    if i > 0 {
                        r.append(",");
                    }
                    let piece = items[i].to_json_string();
                    r.append(piece.as_str());
                    proof {
                        reveal_strlit(",");
                        let pre = items@.subrange(0, i as int);
                        let cur = items@.subrange(0, i + 1 as int);
                        assert(cur.drop_last() =~= pre);
                        assert(cur.last() == items@[i as int]);
                        lemma_json_view_seq_len(pre);
                        lemma_json_view_seq_len(cur);
                        assert(json_view_seq(cur).drop_last() =~= json_view_seq(pre));
                        assert(r@ =~= seq!['['] + json_arr_text(json_view_seq(cur)));
                    }
                }
                r.append("]");
                proof {
                    reveal_strlit("]");
                    assert(items@.subrange(0, items@.len() as int) =~= items@);
                    assert(r@ =~= json_text(self@));
                }
                r
            },
            JsonValue::Obj(entries) => {
                proof {
                    reveal_strlit("{");
                }
                let mut r = String::from_str("{");
                for i in 0..entries.len()
                    invariant
                        *self == JsonValue::Obj(*entries),
                        r@ == seq!['{'] + json_obj_text(
                            json_view_entries(entries@.subrange(0, i as int)),
                        ),
                    decreases entries.len() - i,
                {
                    proof {
                        assert(decreases_to!(*self => entries@));
                        assert(decreases_to!(entries@ => entries@[i as int]));
                        assert(decreases_to!(entries@[i as int] => entries@[i as int].1));
                        assert(decreases_to!(*self => entries@[i as int].1));
                    }
                    if i > 0 {
                        r.append(",");
                    }
                    let key_text = string_text_exec(entries[i].0.as_str());
                    r.append(key_text.as_str());
                    r.append(":");
                    let piece = entries[i].1.to_json_string();
                    r.append(piece.as_str());
                    proof {
                        reveal_strlit(",");
                        reveal_strlit(":");
                        let pre = entries@.subrange(0, i as int);
                        let cur = entries@.subrange(0, i + 1 as int);
                        let member = (entries@[i as int].0@, json_view(entries@[i as int].1));
                        assert(cur.drop_last() =~= pre);
                        assert(cur.last() == entries@[i as int]);
                        lemma_json_view_entries_len(pre);
                        lemma_json_view_entries_len(cur);
                        assert(json_view_entries(cur) =~= json_view_entries(pre).push(member));
                        assert(json_view_entries(cur).drop_last() =~= json_view_entries(pre));
                        assert(json_view_entries(cur).last() == member);
                        assert(member_text(member) == string_text(entries@[i as int].0@) + seq![':']
                            + json_text(json_view(entries@[i as int].1)));
                        if i == 0 {
                            assert(json_obj_text(json_view_entries(cur)) == member_text(member));
                        } else {
                            assert(json_obj_text(json_view_entries(cur)) == json_obj_text(
                                json_view_entries(pre),
                            ) + seq![','] + member_text(member));
                        }
                        assert(r@ =~= seq!['{'] + json_obj_text(json_view_entries(cur)));
                    }
                }
                r.append("}");
                proof {
                    reveal_strlit("}");
                    assert(entries@.subrange(0, entries@.len() as int) =~= entries@);
                    assert(r@ =~= json_text(self@));
                }
                r
            },
        }
    }
}

} // verus!
