use crate::app_name::AppName;
use crate::json::{JsonValue, JsonView};
use vstd::prelude::*;

verus! {

/// The kinds of predicates a routing rule may use.
#[derive(Clone, Copy, Debug, PartialEq, Eq, Structural)]
pub enum MatcherKind {
    Host,
    PathPrefix,
}

/// The name under which a predicate kind is written.
pub open spec fn kind_text(k: MatcherKind) -> Seq<char> {
    match k {
        MatcherKind::Host => "Host"@,
        MatcherKind::PathPrefix => "PathPrefix"@,
    }
}

/// The mathematical form of one predicate of a routing rule.
#[verifier::ext_equal]
pub struct MatcherView {
    pub kind: MatcherKind,
    pub values: Seq<Seq<char>>,
}

/// One predicate of a routing rule: its kind and its arguments.
#[derive(Debug, PartialEq, Eq)]
pub struct Matcher {
    kind: MatcherKind,
    values: Vec<String>,
}

impl View for Matcher {
    type V = MatcherView;

    closed spec fn view(&self) -> MatcherView {
        MatcherView { kind: self.kind, values: string_views(self.values@) }
    }
}

/// The mathematical forms of a list of strings.
pub open spec fn string_views(s: Seq<String>) -> Seq<Seq<char>> {
    s.map_values(|x: String| x@)
}

proof fn lemma_string_views_push(a: Seq<String>, x: String)
    ensures
        string_views(a.push(x)) =~= string_views(a).push(x@),
{
}

/// The mathematical forms of a list of predicates.
pub open spec fn matcher_views(s: Seq<Matcher>) -> Seq<MatcherView> {
    s.map_values(|m: Matcher| m@)
}

proof fn lemma_matcher_views_push(a: Seq<Matcher>, x: Matcher)
    ensures
        matcher_views(a.push(x)) =~= matcher_views(a).push(x@),
{
}

/// A predicate argument, written between backticks.
pub open spec fn value_text(v: Seq<char>) -> Seq<char> {
    seq!['`'] + v + seq!['`']
}

/// The comma-separated arguments of a predicate.
pub open spec fn values_text(vs: Seq<Seq<char>>) -> Seq<char>
    decreases vs.len(),
{
    if vs.len() == 0 {
        Seq::empty()
    } else if vs.len() == 1 {
        value_text(vs.last())
    } else {
        values_text(vs.drop_last()) + seq![',', ' '] + value_text(vs.last())
    }
}

/// The text of one predicate: its kind and its arguments in parentheses.
pub open spec fn matcher_text(m: MatcherView) -> Seq<char> {
    kind_text(m.kind) + seq!['('] + values_text(m.values) + seq![')']
}

/// The text of a routing rule: its predicates joined by ` && `.
pub open spec fn rule_text(ms: Seq<MatcherView>) -> Seq<char>
    decreases ms.len(),
{
    if ms.len() == 0 {
        Seq::empty()
    } else if ms.len() == 1 {
        matcher_text(ms.last())
    } else {
        rule_text(ms.drop_last()) + seq![' ', '&', '&', ' '] + matcher_text(ms.last())
    }
}

/// A well-formed predicate: at least one argument, none empty, none
/// containing a backtick.
pub open spec fn wf_matcher(m: MatcherView) -> bool {
    &&& m.values.len() > 0
    &&& forall|i: int|
        0 <= i < m.values.len() ==> {
            &&& (#[trigger] m.values[i]).len() > 0
            &&& forall|k: int| 0 <= k < m.values[i].len() ==> m.values[i][k] != '`'
        }
}

/// A well-formed rule: at least one predicate, all well formed.
pub open spec fn wf_rule(ms: Seq<MatcherView>) -> bool {
    &&& ms.len() > 0
    &&& forall|i: int| 0 <= i < ms.len() ==> wf_matcher(#[trigger] ms[i])
}

/// Whether `s` begins with the text `pre`.
pub open spec fn has_prefix(s: Seq<char>, pre: Seq<char>) -> bool {
    pre.len() <= s.len() && s.subrange(0, pre.len() as int) == pre
}

/// Reads one predicate argument: the characters up to the closing
/// backtick, and the text after it. Nothing is read when no backtick
/// follows.
pub open spec fn scan_value(s: Seq<char>) -> Option<(Seq<char>, Seq<char>)>
    decreases s.len(),
{
    if s.len() == 0 {
        Option::None
    } else if s[0] == '`' {
        Option::Some((Seq::empty(), s.drop_first()))
    } else {
        match scan_value(s.drop_first()) {
            Option::Some(vr) => Option::Some((seq![s[0]] + vr.0, vr.1)),
            Option::None => Option::None,
        }
    }
}

/// What `scan_value` read: a backtick-free text, and the input is that
/// text, the closing backtick, and the rest.
pub proof fn lemma_scan_value_sound(s: Seq<char>)
    ensures
        scan_value(s) is Some ==> s == (scan_value(s)->0).0 + seq!['`'] + (scan_value(s)->0).1,
        scan_value(s) is Some ==> forall|k: int|
            0 <= k < (scan_value(s)->0).0.len() ==> (scan_value(s)->0).0[k] != '`',
    decreases s.len(),
{
    if s.len() > 0 && s[0] != '`' {
        lemma_scan_value_sound(s.drop_first());
        if scan_value(s) is Some {
            let inner = scan_value(s.drop_first());
            assert(s =~= seq![s[0]] + s.drop_first());
            assert(s =~= (scan_value(s)->0).0 + seq!['`'] + (scan_value(s)->0).1);
        }
    } else if s.len() > 0 {
        assert(s =~= Seq::<char>::empty() + seq!['`'] + s.drop_first());
    }
}

/// Reads a predicate's argument list: one or more nonempty backticked
/// values separated by `, `, closed by `)`; returns the values and the
/// text after the closing parenthesis.
pub open spec fn scan_values(s: Seq<char>) -> Option<(Seq<Seq<char>>, Seq<char>)>
    decreases s.len(),
        via scan_values_decreases
{
    if s.len() == 0 || s[0] != '`' {
        Option::None
    } else {
        match scan_value(s.drop_first()) {
            Option::None => Option::None,
            Option::Some(vr) => {
                if vr.0.len() == 0 {
                    Option::None
                } else if vr.1.len() > 0 && vr.1[0] == ')' {
                    Option::Some((seq![vr.0], vr.1.drop_first()))
                } else if vr.1.len() >= 2 && vr.1[0] == ',' && vr.1[1] == ' ' {
                    match scan_values(vr.1.subrange(2, vr.1.len() as int)) {
                        Option::Some(vsr) => Option::Some((seq![vr.0] + vsr.0, vsr.1)),
                        Option::None => Option::None,
                    }
                } else {
                    Option::None
                }
            },
        }
    }
}

#[via_fn]
proof fn scan_values_decreases(s: Seq<char>) {
    if s.len() > 0 && s[0] == '`' {
        lemma_scan_value_sound(s.drop_first());
    }
}

/// Unfolds the written argument list at its first value.
pub proof fn lemma_values_text_front(vs: Seq<Seq<char>>)
    requires
        vs.len() >= 1,
    ensures
        vs.len() == 1 ==> values_text(vs) == value_text(vs[0]),
        vs.len() > 1 ==> values_text(vs) == value_text(vs[0]) + seq![',', ' '] + values_text(
            vs.drop_first(),
        ),
    decreases vs.len(),
{
    if vs.len() == 2 {
        assert(vs.drop_last().len() == 1);
        assert(vs.drop_last().last() == vs[0]);
        assert(values_text(vs.drop_last()) == value_text(vs[0]));
        assert(vs.drop_first().len() == 1);
        assert(vs.drop_first().last() == vs[1]);
        assert(values_text(vs.drop_first()) == value_text(vs[1]));
        assert(vs.last() == vs[1]);
        assert(values_text(vs) =~= value_text(vs[0]) + seq![',', ' '] + values_text(
            vs.drop_first(),
        ));
    } else if vs.len() > 2 {
        lemma_values_text_front(vs.drop_last());
        assert(vs.drop_last()[0] == vs[0]);
        assert(vs.drop_last().drop_first() =~= vs.drop_first().drop_last());
        assert(vs.drop_first().last() == vs.last());
        assert(values_text(vs.drop_first()) == values_text(vs.drop_first().drop_last()) + seq![
            ',',
            ' ',
        ] + value_text(vs.drop_first().last()));
        assert(values_text(vs) =~= value_text(vs[0]) + seq![',', ' '] + values_text(
            vs.drop_first(),
        ));
    }
}

/// What `scan_values` read: a well-formed argument list, and the input
/// is its written form, the closing parenthesis, and the rest.
pub proof fn lemma_scan_values_sound(s: Seq<char>)
    ensures
        scan_values(s) is Some ==> (scan_values(s)->0).0.len() > 0,
        scan_values(s) is Some ==> forall|i: int|
            0 <= i < (scan_values(s)->0).0.len() ==> {
                &&& (#[trigger] (scan_values(s)->0).0[i]).len() > 0
                &&& forall|k: int|
                    0 <= k < (scan_values(s)->0).0[i].len() ==> (scan_values(s)->0).0[i][k] != '`'
            },
        scan_values(s) is Some ==> s == values_text((scan_values(s)->0).0) + seq![')'] + (
        scan_values(s)->0).1,
    decreases s.len(),
{
    if s.len() > 0 && s[0] == '`' && scan_value(s.drop_first()) is Some {
        lemma_scan_value_sound(s.drop_first());
        let vr = scan_value(s.drop_first())->0;
        let v = vr.0;
        let r1 = vr.1;
        if v.len() > 0 {
            if r1.len() > 0 && r1[0] == ')' {
                let vs = seq![v];
                assert(vs.len() == 1);
                assert(values_text(vs) == value_text(vs.last()));
                assert(r1 =~= seq![')'] + r1.drop_first());
                assert(s =~= seq!['`'] + s.drop_first());
                assert(s =~= values_text(vs) + seq![')'] + r1.drop_first());
            } else if r1.len() >= 2 && r1[0] == ',' && r1[1] == ' ' {
                let r2 = r1.subrange(2, r1.len() as int);
                lemma_scan_values_sound(r2);
                if scan_values(r2) is Some {
                    let inner = scan_values(r2)->0;
                    let vs = seq![v] + inner.0;
                    lemma_values_text_front(vs);
                    assert(vs[0] == v);
                    assert(vs.drop_first() =~= inner.0);
                    assert(r1 =~= seq![',', ' '] + r2);
                    assert(s =~= seq!['`'] + s.drop_first());
                    assert(s =~= values_text(vs) + seq![')'] + inner.1);
                    assert forall|i: int| 0 <= i < vs.len() implies {
                        &&& (#[trigger] vs[i]).len() > 0
                        &&& forall|k: int| 0 <= k < vs[i].len() ==> vs[i][k] != '`'
                    } by {
                        if i > 0 {
                            assert(vs[i] == inner.0[i - 1]);
                        }
                    }
                }
            }
        }
    }
}

/// Reads one predicate: its kind name, and its argument list in
/// parentheses.
pub open spec fn scan_matcher(s: Seq<char>) -> Option<(MatcherView, Seq<char>)> {
    if has_prefix(s, "Host("@) {
        match scan_values(s.subrange(5, s.len() as int)) {
            Option::Some(vr) => Option::Some(
                (MatcherView { kind: MatcherKind::Host, values: vr.0 }, vr.1),
            ),
            Option::None => Option::None,
        }
    } else if has_prefix(s, "PathPrefix("@) {
        match scan_values(s.subrange(11, s.len() as int)) {
            Option::Some(vr) => Option::Some(
                (MatcherView { kind: MatcherKind::PathPrefix, values: vr.0 }, vr.1),
            ),
            Option::None => Option::None,
        }
    } else {
        Option::None
    }
}

/// What `scan_matcher` read: a well-formed predicate, and the input is
/// its written form followed by the rest.
pub proof fn lemma_scan_matcher_sound(s: Seq<char>)
    ensures
        scan_matcher(s) is Some ==> wf_matcher((scan_matcher(s)->0).0),
        scan_matcher(s) is Some ==> s == matcher_text((scan_matcher(s)->0).0) + (scan_matcher(
            s,
        )->0).1,
{
    reveal_strlit("Host(");
    reveal_strlit("PathPrefix(");
    reveal_strlit("Host");
    reveal_strlit("PathPrefix");
    if has_prefix(s, "Host("@) {
        let tail = s.subrange(5, s.len() as int);
        lemma_scan_values_sound(tail);
        if scan_values(tail) is Some {
            let vr = scan_values(tail)->0;
            let m = MatcherView { kind: MatcherKind::Host, values: vr.0 };
            assert(s =~= s.subrange(0, 5) + tail);
            assert(s.subrange(0, 5) =~= "Host"@ + seq!['(']);
            assert(matcher_text(m) =~= "Host"@ + seq!['('] + values_text(vr.0) + seq![')']);
            assert(s =~= matcher_text(m) + vr.1);
        }
    } else if has_prefix(s, "PathPrefix("@) {
        let tail = s.subrange(11, s.len() as int);
        lemma_scan_values_sound(tail);
        if scan_values(tail) is Some {
            let vr = scan_values(tail)->0;
            let m = MatcherView { kind: MatcherKind::PathPrefix, values: vr.0 };
            assert(s =~= s.subrange(0, 11) + tail);
            assert(s.subrange(0, 11) =~= "PathPrefix"@ + seq!['(']);
            assert(matcher_text(m) =~= "PathPrefix"@ + seq!['('] + values_text(vr.0) + seq![
                ')',
            ]);
            assert(s =~= matcher_text(m) + vr.1);
        }
    }
}

/// Reads a whole rule: predicates separated by ` && `, consuming the
/// entire text.
pub open spec fn scan_rule(s: Seq<char>) -> Option<Seq<MatcherView>>
    decreases s.len(),
        via scan_rule_decreases
{
    match scan_matcher(s) {
        Option::None => Option::None,
        Option::Some(mr) => {
            if mr.1.len() == 0 {
                Option::Some(seq![mr.0])
            } else if has_prefix(mr.1, " && "@) {
                match scan_rule(mr.1.subrange(4, mr.1.len() as int)) {
                    Option::Some(ms) => Option::Some(seq![mr.0] + ms),
                    Option::None => Option::None,
                }
            } else {
                Option::None
            }
        },
    }
}

#[via_fn]
proof fn scan_rule_decreases(s: Seq<char>) {
    reveal_strlit(" && ");
    lemma_scan_matcher_sound(s);
    if scan_matcher(s) is Some {
        let mr = scan_matcher(s)->0;
        assert(matcher_text(mr.0).len() >= 1);
        assert(s.len() == (matcher_text(mr.0) + mr.1).len());
        if has_prefix(mr.1, " && "@) {
            assert(mr.1.len() >= 4);
            assert(mr.1.subrange(4, mr.1.len() as int).len() < s.len());
        }
    }
}

/// Unfolds the written rule at its first predicate.
pub proof fn lemma_rule_text_front(ms: Seq<MatcherView>)
    requires
        ms.len() >= 1,
    ensures
        ms.len() == 1 ==> rule_text(ms) == matcher_text(ms[0]),
        ms.len() > 1 ==> rule_text(ms) == matcher_text(ms[0]) + seq![' ', '&', '&', ' ']
            + rule_text(ms.drop_first()),
    decreases ms.len(),
{
    if ms.len() == 2 {
        assert(ms.drop_last().len() == 1);
        assert(ms.drop_last().last() == ms[0]);
        assert(rule_text(ms.drop_last()) == matcher_text(ms[0]));
        assert(ms.drop_first().len() == 1);
        assert(ms.drop_first().last() == ms[1]);
        assert(rule_text(ms.drop_first()) == matcher_text(ms[1]));
        assert(ms.last() == ms[1]);
        assert(rule_text(ms) =~= matcher_text(ms[0]) + seq![' ', '&', '&', ' '] + rule_text(
            ms.drop_first(),
        ));
    } else if ms.len() > 2 {
        lemma_rule_text_front(ms.drop_last());
        assert(ms.drop_last()[0] == ms[0]);
        assert(ms.drop_last().drop_first() =~= ms.drop_first().drop_last());
        assert(ms.drop_first().last() == ms.last());
        assert(rule_text(ms.drop_first()) == rule_text(ms.drop_first().drop_last()) + seq![
            ' ',
            '&',
            '&',
            ' ',
        ] + matcher_text(ms.drop_first().last()));
        assert(rule_text(ms) =~= matcher_text(ms[0]) + seq![' ', '&', '&', ' '] + rule_text(
            ms.drop_first(),
        ));
    }
}

/// What `scan_rule` read: a well-formed rule whose written form is the
/// whole input.
pub proof fn lemma_scan_rule_sound(s: Seq<char>)
    ensures
        scan_rule(s) is Some ==> wf_rule(scan_rule(s)->0),
        scan_rule(s) is Some ==> rule_text(scan_rule(s)->0) == s,
    decreases s.len(),
{
    lemma_scan_matcher_sound(s);
    if scan_matcher(s) is Some {
        let mr = scan_matcher(s)->0;
        if mr.1.len() == 0 {
            assert(s =~= matcher_text(mr.0));
            assert(rule_text(seq![mr.0]) == matcher_text(seq![mr.0].last()));
            assert(rule_text(seq![mr.0]) =~= s);
        } else if has_prefix(mr.1, " && "@) {
            reveal_strlit(" && ");
            let r2 = mr.1.subrange(4, mr.1.len() as int);
            assert(matcher_text(mr.0).len() >= 1);
            lemma_scan_rule_sound(r2);
            if scan_rule(r2) is Some {
                let inner = scan_rule(r2)->0;
                let ms = seq![mr.0] + inner;
                lemma_rule_text_front(ms);
                assert(ms[0] == mr.0);
                assert(ms.len() == 1 + inner.len());
                assert(inner.len() >= 1);
                assert(ms.drop_first() =~= inner);
                assert(rule_text(ms.drop_first()) == rule_text(inner));
                assert(rule_text(ms) == matcher_text(mr.0) + seq![' ', '&', '&', ' ']
                    + rule_text(inner));
                assert(rule_text(inner) == r2);
                assert(" && "@.len() == 4);
                assert(mr.1.subrange(0, 4) == " && "@);
                assert(" && "@ =~= seq![' ', '&', '&', ' ']);
                assert(mr.1 =~= mr.1.subrange(0, 4) + mr.1.subrange(4, mr.1.len() as int));
                assert(mr.1 =~= seq![' ', '&', '&', ' '] + r2);
                assert(s == matcher_text(mr.0) + mr.1);
                assert(rule_text(ms) =~= s);
                assert forall|i: int| 0 <= i < ms.len() implies wf_matcher(
                    #[trigger] ms[i],
                ) by {
                    if i > 0 {
                        assert(ms[i] == inner[i - 1]);
                    }
                }
            }
        }
    }
}

/// Every written argument is read back: `scan_value` recovers a
/// backtick-free value from its written form.
pub proof fn lemma_scan_value_complete(v: Seq<char>, rest: Seq<char>)
    requires
        forall|k: int| 0 <= k < v.len() ==> v[k] != '`',
    ensures
        scan_value(v + seq!['`'] + rest) == Option::Some((v, rest)),
    decreases v.len(),
{
    let s = v + seq!['`'] + rest;
    if v.len() == 0 {
        assert(s[0] == '`');
        assert(s.drop_first() =~= rest);
        assert((scan_value(s)->0).0 =~= v);
        assert(scan_value(s) == Option::Some((v, rest)));
    } else {
        assert(s[0] == v[0]);
        assert(v[0] != '`');
        lemma_scan_value_complete(v.drop_first(), rest);
        assert(s.drop_first() =~= v.drop_first() + seq!['`'] + rest);
        assert(scan_value(s.drop_first()) == Option::Some((v.drop_first(), rest)));
        assert(seq![s[0]] + v.drop_first() =~= v);
        assert(scan_value(s) == Option::Some((v, rest)));
    }
}

/// Every written argument list is read back: `scan_values` recovers a
/// well-formed value list from its written form.
pub proof fn lemma_scan_values_complete(vs: Seq<Seq<char>>, rest: Seq<char>)
    requires
        vs.len() >= 1,
        forall|i: int|
            0 <= i < vs.len() ==> {
                &&& (#[trigger] vs[i]).len() > 0
                &&& forall|k: int| 0 <= k < vs[i].len() ==> vs[i][k] != '`'
            },
    ensures
        scan_values(values_text(vs) + seq![')'] + rest) == Option::Some((vs, rest)),
    decreases vs.len(),
{
    let s = values_text(vs) + seq![')'] + rest;
    lemma_values_text_front(vs);
    let v = vs[0];
    if vs.len() == 1 {
        let r1 = seq![')'] + rest;
        assert(s =~= seq!['`'] + (v + seq!['`'] + r1));
        assert(s[0] == '`');
        assert(s.drop_first() =~= v + seq!['`'] + r1);
        lemma_scan_value_complete(v, r1);
        assert(scan_value(s.drop_first()) == Option::Some((v, r1)));
        assert(r1.len() > 0 && r1[0] == ')');
        assert(r1.drop_first() =~= rest);
        assert(v.len() > 0);
        assert(seq![v] =~= vs);
        assert(scan_values(s) == Option::Some((vs, rest)));
    } else {
        let tail = vs.drop_first();
        let r1 = seq![',', ' '] + (values_text(tail) + seq![')'] + rest);
        assert(s =~= seq!['`'] + (v + seq!['`'] + r1));
        assert(s[0] == '`');
        assert(s.drop_first() =~= v + seq!['`'] + r1);
        lemma_scan_value_complete(v, r1);
        assert(scan_value(s.drop_first()) == Option::Some((v, r1)));
        assert(v.len() > 0);
        assert(r1.len() >= 2 && r1[0] == ',' && r1[1] == ' ');
        assert(r1[0] != ')');
        assert(r1.subrange(2, r1.len() as int) =~= values_text(tail) + seq![')'] + rest);
        assert forall|i: int| 0 <= i < tail.len() implies {
            &&& (#[trigger] tail[i]).len() > 0
            &&& forall|k: int| 0 <= k < tail[i].len() ==> tail[i][k] != '`'
        } by {
            assert(tail[i] == vs[i + 1]);
        }
        lemma_scan_values_complete(tail, rest);
        assert(scan_values(r1.subrange(2, r1.len() as int)) == Option::Some((tail, rest)));
        assert(seq![v] + tail =~= vs);
        assert(scan_values(s) == Option::Some((vs, rest)));
    }
}

/// Every written predicate is read back: `scan_matcher` recovers a
/// well-formed predicate from its written form.
pub proof fn lemma_scan_matcher_complete(m: MatcherView, rest: Seq<char>)
    requires
        wf_matcher(m),
    ensures
        scan_matcher(matcher_text(m) + rest) == Option::Some((m, rest)),
{
    reveal_strlit("Host");
    reveal_strlit("PathPrefix");
    reveal_strlit("Host(");
    reveal_strlit("PathPrefix(");
    let s = matcher_text(m) + rest;
    lemma_scan_values_complete(m.values, rest);
    match m.kind {
        MatcherKind::Host => {
            assert(s =~= "Host("@ + (values_text(m.values) + seq![')'] + rest));
            assert(s.subrange(0, 5) =~= "Host("@);
            assert(has_prefix(s, "Host("@));
            assert(s.subrange(5, s.len() as int) =~= values_text(m.values) + seq![')'] + rest);
            assert(scan_values(s.subrange(5, s.len() as int)) == Option::Some((m.values, rest)));
            assert((MatcherView { kind: MatcherKind::Host, values: m.values }) =~= m);
            assert(scan_matcher(s) == Option::Some((m, rest)));
        },
        MatcherKind::PathPrefix => {
            assert(s =~= "PathPrefix("@ + (values_text(m.values) + seq![')'] + rest));
            assert(s[0] == 'P');
            if has_prefix(s, "Host("@) {
                assert(s.subrange(0, 5)[0] == 'H');
                assert(false);
            }
            assert(s.subrange(0, 11) =~= "PathPrefix("@);
            assert(has_prefix(s, "PathPrefix("@));
            assert(s.subrange(11, s.len() as int) =~= values_text(m.values) + seq![')'] + rest);
            assert(scan_values(s.subrange(11, s.len() as int)) == Option::Some((m.values, rest)));
            assert((MatcherView { kind: MatcherKind::PathPrefix, values: m.values }) =~= m);
            assert(scan_matcher(s) == Option::Some((m, rest)));
        },
    }
}

/// Every written rule is read back: `scan_rule` recovers a well-formed
/// rule from its written form.
pub proof fn lemma_scan_rule_complete(ms: Seq<MatcherView>)
    requires
        wf_rule(ms),
    ensures
        scan_rule(rule_text(ms)) == Option::Some(ms),
    decreases ms.len(),
{
    reveal_strlit(" && ");
    let s = rule_text(ms);
    lemma_rule_text_front(ms);
    if ms.len() == 1 {
        lemma_scan_matcher_complete(ms[0], Seq::empty());
        assert(matcher_text(ms[0]) + Seq::<char>::empty() =~= s);
        assert(scan_matcher(s) == Option::Some((ms[0], Seq::<char>::empty())));
        assert(seq![ms[0]] =~= ms);
        assert(scan_rule(s) == Option::Some(ms));
    } else {
        let tail = ms.drop_first();
        let sep: Seq<char> = seq![' ', '&', '&', ' '];
        let mrest = sep + rule_text(tail);
        lemma_scan_matcher_complete(ms[0], mrest);
        assert(matcher_text(ms[0]) + mrest =~= s);
        assert(scan_matcher(s) == Option::Some((ms[0], mrest)));
        assert(mrest.len() >= 4);
        assert(mrest.subrange(0, 4) =~= " && "@);
        assert(has_prefix(mrest, " && "@));
        assert(mrest.subrange(4, mrest.len() as int) =~= rule_text(tail));
        assert forall|i: int| 0 <= i < tail.len() implies wf_matcher(#[trigger] tail[i]) by {
            assert(tail[i] == ms[i + 1]);
        }
        assert(tail.len() >= 1);
        lemma_scan_rule_complete(tail);
        assert(scan_rule(mrest.subrange(4, mrest.len() as int)) == Option::Some(tail));
        assert(seq![ms[0]] + tail =~= ms);
        assert(scan_rule(s) == Option::Some(ms));
    }
}

/// The written form determines the rule: two well-formed rules with the
/// same text are the same rule.
pub proof fn lemma_rule_text_injective(a: Seq<MatcherView>, b: Seq<MatcherView>)
    requires
        wf_rule(a),
        wf_rule(b),
        rule_text(a) == rule_text(b),
    ensures
        a == b,
{
    lemma_scan_rule_complete(a);
    lemma_scan_rule_complete(b);
}

/// A typed routing rule: the predicates a request must satisfy, written
/// `Kind(`value`, ...)` joined by ` && `.
#[derive(Debug, PartialEq, Eq)]
pub struct TraefikRouterRule {
    matchers: Vec<Matcher>,
}

impl View for TraefikRouterRule {
    type V = Seq<MatcherView>;

    closed spec fn view(&self) -> Seq<MatcherView> {
        matcher_views(self.matchers@)
    }
}

/// The text of `s` from position `p` on.
pub open spec fn tail_from(s: Seq<char>, p: int) -> Seq<char> {
    s.subrange(p, s.len() as int)
}

/// Whether the text of `lit` stands in `s` at position `p`.
fn starts_with_at(s: &str, s_len: usize, p: usize, lit: &str) -> (r: bool)
    requires
        s_len == s@.len(),
        p <= s_len,
    ensures
        r == (p + lit@.len() <= s@.len() && s@.subrange(p as int, p + lit@.len()) == lit@),
{
    let lit_len = lit.unicode_len();
    if s_len - p < lit_len {
        return false;
    }
    for i in 0..lit_len
        invariant
            s_len == s@.len(),
            p + lit_len <= s_len,
            lit_len == lit@.len(),
            forall|k: int| 0 <= k < i ==> s@[p + k] == lit@[k],
    {
        if s.get_char(p + i) != lit.get_char(i) {
            proof {
                if s@.subrange(p as int, p + lit@.len()) == lit@ {
                    assert(s@.subrange(p as int, p + lit@.len())[i as int] == lit@[i as int]);
                    assert(false);
                }
            }
            return false;
        }
    }
    proof {
        assert(s@.subrange(p as int, p + lit@.len()) =~= lit@);
    }
    true
}

/// A first backtick at index `q` splits the text there.
proof fn lemma_scan_value_found(t: Seq<char>, q: int)
    requires
        0 <= q < t.len(),
        t[q] == '`',
        forall|k: int| 0 <= k < q ==> t[k] != '`',
    ensures
        scan_value(t) == Option::Some((t.subrange(0, q), t.subrange(q + 1, t.len() as int))),
    decreases q,
{
    if q == 0 {
        assert(t.subrange(0, 0) =~= Seq::<char>::empty());
        assert(t.subrange(1, t.len() as int) =~= t.drop_first());
    } else {
        assert(t[0] != '`');
        lemma_scan_value_found(t.drop_first(), q - 1);
        assert(t.drop_first().subrange(0, q - 1) =~= t.subrange(1, q));
        assert(t.drop_first().subrange(q, t.drop_first().len() as int) =~= t.subrange(
            q + 1,
            t.len() as int,
        ));
        assert(seq![t[0]] + t.subrange(1, q) =~= t.subrange(0, q));
    }
}

/// A text without a backtick holds no argument.
proof fn lemma_scan_value_missing(t: Seq<char>)
    requires
        forall|k: int| 0 <= k < t.len() ==> t[k] != '`',
    ensures
        scan_value(t) is None,
    decreases t.len(),
{
    if t.len() > 0 {
        lemma_scan_value_missing(t.drop_first());
    }
}

/// The position of the closing backtick of the argument starting at `p`.
fn scan_value_at(s: &str, len: usize, p: usize) -> (r: Option<usize>)
    requires
        len == s@.len(),
        p <= len,
    ensures
        match r {
            Option::Some(q) => {
                &&& p <= q < len
                &&& scan_value(tail_from(s@, p as int)) == Option::Some(
                    (s@.subrange(p as int, q as int), tail_from(s@, q + 1 as int)),
                )
            },
            Option::None => scan_value(tail_from(s@, p as int)) is None,
        },
{
    let mut j = p;
    while j < len
        invariant
            p <= j <= len,
            len == s@.len(),
            forall|k: int| p <= k < j ==> s@[k] != '`',
        decreases len - j,
    {
        if s.get_char(j) == '`' {
            proof {
                let t = tail_from(s@, p as int);
                lemma_scan_value_found(t, j - p);
                assert(t.subrange(0, j - p) =~= s@.subrange(p as int, j as int));
                assert(t.subrange(j - p + 1, t.len() as int) =~= tail_from(s@, j + 1 as int));
            }
            return Some(j);
        }
        j = j + 1;
    }
    proof {
        lemma_scan_value_missing(tail_from(s@, p as int));
    }
    None
}

/// Reads the argument list starting at `p`; the returned position is the
/// first not consumed.
#[verifier::loop_isolation(false)]
fn scan_values_at(s: &str, len: usize, p: usize) -> (r: Option<(Vec<String>, usize)>)
    requires
        len == s@.len(),
        p <= len,
    ensures
        match r {
            Option::Some(vsq) => {
                &&& p < vsq.1 <= len
                &&& scan_values(tail_from(s@, p as int)) == Option::Some(
                    (string_views(vsq.0@), tail_from(s@, vsq.1 as int)),
                )
            },
            Option::None => scan_values(tail_from(s@, p as int)) is None,
        },
{
    let mut vs: Vec<String> = Vec::new();
    let mut cur = p;
    loop
        invariant
            p <= cur <= len,
            scan_values(tail_from(s@, cur as int)) is Some ==> scan_values(tail_from(s@, p as int))
                == Option::Some(
                (
                    string_views(vs@) + (scan_values(tail_from(s@, cur as int))->0).0,
                    (scan_values(tail_from(s@, cur as int))->0).1,
                ),
            ),
            scan_values(tail_from(s@, cur as int)) is None ==> scan_values(
                tail_from(s@, p as int),
            ) is None,
        decreases len - cur,
    {
        let ghost t = tail_from(s@, cur as int);
        if cur >= len || s.get_char(cur) != '`' {
            proof {
                assert(t.len() == 0 || t[0] != '`');
                assert(scan_values(t) is None);
            }
            return None;
        }
        proof {
            assert(t[0] == '`');
            assert(t.drop_first() =~= tail_from(s@, cur + 1 as int));
        }
        let q = match scan_value_at(s, len, cur + 1) {
            Some(q) => q,
            None => {
                proof {
                    assert(scan_values(t) is None);
                }
                return None;
            },
        };
        let ghost vtext = s@.subrange(cur + 1 as int, q as int);
        if q == cur + 1 {
            proof {
                assert(vtext.len() == 0);
                assert(scan_values(t) is None);
            }
            return None;
        }
        let v = s.substring_char(cur + 1, q).to_owned();
        let ghost old_vs = vs@;
        if len - q > 1 && s.get_char(q + 1) == ')' {
            vs.push(v);
            proof {
                let r1 = tail_from(s@, q + 1 as int);
                assert(r1.len() > 0 && r1[0] == ')');
                assert(r1.drop_first() =~= tail_from(s@, q + 2 as int));
                assert(scan_values(t) == Option::Some(
                    (seq![vtext], tail_from(s@, q + 2 as int)),
                ));
                assert(string_views(vs@) =~= string_views(old_vs) + seq![vtext]);
                assert(string_views(old_vs) + (seq![vtext]) =~= string_views(vs@));
                assert(scan_values(tail_from(s@, p as int)) == Option::Some(
                    (string_views(vs@), tail_from(s@, q + 2 as int)),
                ));
            }
            return Some((vs, q + 2));
        }
        if len - q > 2 && s.get_char(q + 1) == ',' && s.get_char(q + 2) == ' ' {
            vs.push(v);
            proof {
                let r1 = tail_from(s@, q + 1 as int);
                assert(r1.len() >= 2 && r1[0] == ',' && r1[1] == ' ');
                assert(r1.subrange(2, r1.len() as int) =~= tail_from(s@, q + 3 as int));
                let inner = scan_values(tail_from(s@, q + 3 as int));
                if inner is Some {
                    assert(scan_values(t) == Option::Some(
                        (seq![vtext] + (inner->0).0, (inner->0).1),
                    ));
                    assert(string_views(vs@) =~= string_views(old_vs) + seq![vtext]);
                    assert(string_views(vs@) + (inner->0).0 =~= string_views(old_vs) + (seq![
                        vtext,
                    ] + (inner->0).0));
                } else {
                    assert(scan_values(t) is None);
                }
            }
            cur = q + 3;
        } else {
            proof {
                let r1 = tail_from(s@, q + 1 as int);
                if len - q > 1 {
                    assert(r1[0] == s@[q + 1]);
                    assert(r1[0] != ')');
                    if r1.len() >= 2 {
                        assert(r1[1] == s@[q + 2]);
                        assert(!(r1[0] == ',' && r1[1] == ' '));
                    }
                } else {
                    assert(r1.len() <= 1);
                }
                assert(scan_values(t) is None);
            }
            return None;
        }
    }
}

/// Reads the predicate starting at `p`; the returned position is the
/// first not consumed.
#[verifier::loop_isolation(false)]
fn scan_matcher_at(s: &str, len: usize, p: usize) -> (r: Option<(Matcher, usize)>)
    requires
        len == s@.len(),
        p <= len,
    ensures
        match r {
            Option::Some(mq) => {
                &&& p < mq.1 <= len
                &&& scan_matcher(tail_from(s@, p as int)) == Option::Some(
                    (mq.0@, tail_from(s@, mq.1 as int)),
                )
            },
            Option::None => scan_matcher(tail_from(s@, p as int)) is None,
        },
{
    proof {
        reveal_strlit("Host(");
        reveal_strlit("PathPrefix(");
    }
    let ghost t = tail_from(s@, p as int);
    if starts_with_at(s, len, p, "Host(") {
        proof {
            assert(t.subrange(0, 5) =~= s@.subrange(p as int, p + 5));
            assert(has_prefix(t, "Host("@));
            assert(t.subrange(5, t.len() as int) =~= tail_from(s@, p + 5 as int));
        }
        match scan_values_at(s, len, p + 5) {
            Some((values, q)) => {
                let m = Matcher { kind: MatcherKind::Host, values };
                proof {
                    assert(scan_matcher(t) == Option::Some((m@, tail_from(s@, q as int))));
                }
                Some((m, q))
            },
            None => {
                proof {
                    assert(scan_matcher(t) is None);
                }
                None
            },
        }
    } else if starts_with_at(s, len, p, "PathPrefix(") {
        proof {
            if has_prefix(t, "Host("@) {
                assert(t.subrange(0, 5) =~= s@.subrange(p as int, p + 5));
                assert(false);
            }
            assert(t.subrange(0, 11) =~= s@.subrange(p as int, p + 11));
            assert(has_prefix(t, "PathPrefix("@));
            assert(t.subrange(11, t.len() as int) =~= tail_from(s@, p + 11 as int));
        }
        match scan_values_at(s, len, p + 11) {
            Some((values, q)) => {
                let m = Matcher { kind: MatcherKind::PathPrefix, values };
                proof {
                    assert(scan_matcher(t) == Option::Some((m@, tail_from(s@, q as int))));
                }
                Some((m, q))
            },
            None => {
                proof {
                    assert(scan_matcher(t) is None);
                }
                None
            },
        }
    } else {
        proof {
            if has_prefix(t, "Host("@) {
                assert(t.subrange(0, 5) =~= s@.subrange(p as int, p + 5));
                assert(false);
            }
            if has_prefix(t, "PathPrefix("@) {
                assert(t.subrange(0, 11) =~= s@.subrange(p as int, p + 11));
                assert(false);
            }
            assert(scan_matcher(t) is None);
        }
        None
    }
}

impl TraefikRouterRule {
    /// A rule with a single path-prefix predicate over the given segments:
    /// `PathPrefix(`/a/b/`)` for segments `a`, `b`.
    pub fn path_prefix_rule(segments: &Vec<String>) -> (r: TraefikRouterRule)
        ensures
            r@ =~= seq![
                MatcherView {
                    kind: MatcherKind::PathPrefix,
                    values: seq![path_of_segments(string_views(segments@))],
                },
            ],
    {
        let path = segments_path_exec(segments);
        let mut values: Vec<String> = Vec::new();
        values.push(path);
        let mut matchers: Vec<Matcher> = Vec::new();
        matchers.push(Matcher { kind: MatcherKind::PathPrefix, values });
        proof {
            assert(matcher_views(matchers@) =~= seq![matchers@[0]@]);
            assert(matchers@[0]@.values =~= seq![
                path_of_segments(string_views(segments@)),
            ]);
        }
        TraefikRouterRule { matchers }
    }

    /// The predicates of this rule.
    pub fn matchers(&self) -> (r: &Vec<Matcher>)
        ensures
            matcher_views(r@) == self@,
    {
        &self.matchers
    }

    /// Writes the rule in Traefik's syntax.
    pub fn to_string(&self) -> (r: String)
        ensures
            r@ == rule_text(self@),
    {
        let mut r = String::new();
        for i in 0..self.matchers.len()
            invariant
                r@ =~= rule_text(matcher_views(self.matchers@.subrange(0, i as int))),
        {
            if i > 0 {
                r.append(" && ");
            }
            let piece = matcher_to_string(&self.matchers[i]);
            r.append(piece.as_str());
            proof {
                reveal_strlit(" && ");
                let pre = self.matchers@.subrange(0, i as int);
                let cur = self.matchers@.subrange(0, i + 1 as int);
                assert(cur.drop_last() =~= pre);
                assert(cur.last() == self.matchers@[i as int]);
                lemma_matcher_views_push(pre, self.matchers@[i as int]);
                assert(matcher_views(cur) =~= matcher_views(pre).push(self.matchers@[i as int]@));
                assert(matcher_views(cur).drop_last() =~= matcher_views(pre));
                assert(matcher_views(cur).last() == self.matchers@[i as int]@);
                assert(r@ =~= rule_text(matcher_views(cur)));
            }
        }
        proof {
            assert(self.matchers@.subrange(0, self.matchers@.len() as int) =~= self.matchers@);
        }
        r
    }

    /// Reads a rule, as `scan_rule` gives it.
    #[verifier::loop_isolation(false)]
    fn parse_rule(s: &str) -> (r: Option<TraefikRouterRule>)
        ensures
            match r {
                Option::Some(rule) => scan_rule(s@) == Option::Some(rule@),
                Option::None => scan_rule(s@) is None,
            },
    {
        let len = s.unicode_len();
        let mut matchers: Vec<Matcher> = Vec::new();
        let mut cur: usize = 0;
        proof {
            assert(tail_from(s@, 0) =~= s@);
        }
        loop
            invariant
                cur <= len,
                scan_rule(tail_from(s@, cur as int)) is Some ==> scan_rule(s@) == Option::Some(
                    matcher_views(matchers@) + scan_rule(tail_from(s@, cur as int))->0,
                ),
                scan_rule(tail_from(s@, cur as int)) is None ==> scan_rule(s@) is None,
            decreases len - cur,
        {
            let ghost t = tail_from(s@, cur as int);
            let (m, q) = match scan_matcher_at(s, len, cur) {
                Some(mq) => mq,
                None => {
                    proof {
                        assert(scan_rule(t) is None);
                    }
                    return None;
                },
            };
            let ghost old_matchers = matchers@;
            if q == len {
                matchers.push(m);
                proof {
                    assert(tail_from(s@, q as int).len() == 0);
                    assert(scan_rule(t) == Option::Some(seq![m@]));
                    lemma_matcher_views_push(old_matchers, m);
                    assert(matcher_views(matchers@) =~= matcher_views(old_matchers) + seq![m@]);
                    assert(scan_rule(s@) == Option::Some(matcher_views(matchers@)));
                }
                return Some(TraefikRouterRule { matchers });
            }
            proof {
                reveal_strlit(" && ");
            }
            if starts_with_at(s, len, q, " && ") {
                matchers.push(m);
                proof {
                    let rest = tail_from(s@, q as int);
                    assert(rest.len() != 0);
                    assert(rest.subrange(0, 4) =~= s@.subrange(q as int, q + 4));
                    assert(has_prefix(rest, " && "@));
                    assert(rest.subrange(4, rest.len() as int) =~= tail_from(s@, q + 4 as int));
                    lemma_matcher_views_push(old_matchers, m);
                    let inner = scan_rule(tail_from(s@, q + 4 as int));
                    if inner is Some {
                        assert(scan_rule(t) == Option::Some(seq![m@] + inner->0));
                        assert(matcher_views(matchers@) + inner->0 =~= matcher_views(old_matchers)
                            + (seq![m@] + inner->0));
                    } else {
                        assert(scan_rule(t) is None);
                    }
                }
                cur = q + 4;
            } else {
                proof {
                    let rest = tail_from(s@, q as int);
                    assert(rest.len() != 0);
                    if has_prefix(rest, " && "@) {
                        assert(rest.subrange(0, 4) =~= s@.subrange(q as int, q + 4));
                        assert(false);
                    }
                    assert(scan_rule(t) is None);
                }
                return None;
            }
        }
    }

    /// Parses a rule from Traefik's syntax. A text is accepted exactly
    /// when it is the written form of a well-formed rule of this
    /// library's grammar, and the parsed rule is that rule.
    pub fn from_str(s: &str) -> (r: Option<TraefikRouterRule>)
        ensures
            r is Some ==> wf_rule(r->0@) && rule_text(r->0@) == s@,
            r is Some <==> exists|ms: Seq<MatcherView>|
                wf_rule(ms) && #[trigger] rule_text(ms) == s@,
    {
        let r = TraefikRouterRule::parse_rule(s);
        proof {
            if r is Some {
                lemma_scan_rule_sound(s@);
            } else {
                if exists|ms: Seq<MatcherView>| wf_rule(ms) && #[trigger] rule_text(ms) == s@ {
                    let ms = choose|ms: Seq<MatcherView>|
                        wf_rule(ms) && #[trigger] rule_text(ms) == s@;
                    lemma_scan_rule_complete(ms);
                    assert(false);
                }
            }
        }
        r
    }

    /// Whether every predicate of the rule is well formed and at least one
    /// is present.
    pub fn is_well_formed(&self) -> (r: bool)
        ensures
            r == wf_rule(self@),
    {
        if self.matchers.len() == 0 {
            return false;
        }
        for i in 0..self.matchers.len()
            invariant
                forall|k: int| 0 <= k < i ==> wf_matcher(#[trigger] matcher_views(self.matchers@)[k]),
        {
            if !matcher_is_well_formed(&self.matchers[i]) {
                proof {
                    assert(!wf_matcher(matcher_views(self.matchers@)[i as int]));
                }
                return false;
            }
        }
        true
    }

}

/// Writes one predicate.
fn matcher_to_string(m: &Matcher) -> (r: String)
    ensures
        r@ == matcher_text(m@),
{
    let mut r = match m.kind {
        MatcherKind::Host => String::from_str("Host"),
        MatcherKind::PathPrefix => String::from_str("PathPrefix"),
    };
    r.append("(");
    proof {
        reveal_strlit("(");
    }
    for i in 0..m.values.len()
        invariant
            r@ =~= kind_text(m@.kind) + seq!['('] + values_text(
                string_views(m.values@.subrange(0, i as int)),
            ),
    {
        if i > 0 {
            r.append(", ");
        }
        r.append("`");
        r.append(m.values[i].as_str());
        r.append("`");
        proof {
            reveal_strlit(", ");
            reveal_strlit("`");
            let pre = m.values@.subrange(0, i as int);
            let cur = m.values@.subrange(0, i + 1 as int);
            assert(cur.drop_last() =~= pre);
            assert(cur.last() == m.values@[i as int]);
            lemma_string_views_push(pre, m.values@[i as int]);
            assert(string_views(cur) =~= string_views(pre).push(m.values@[i as int]@));
            assert(string_views(cur).drop_last() =~= string_views(pre));
            assert(string_views(cur).last() == m.values@[i as int]@);
            assert(r@ =~= kind_text(m@.kind) + seq!['('] + values_text(string_views(cur)));
        }
    }
    r.append(")");
    proof {
        reveal_strlit("(");
        reveal_strlit(")");
        assert(m.values@.subrange(0, m.values@.len() as int) =~= m.values@);
        assert(r@ =~= matcher_text(m@));
    }
    r
}

/// Whether one predicate is well formed.
fn matcher_is_well_formed(m: &Matcher) -> (r: bool)
    ensures
        r == wf_matcher(m@),
{
    if m.values.len() == 0 {
        return false;
    }
    for i in 0..m.values.len()
        invariant
            forall|k: int|
                0 <= k < i ==> {
                    &&& (#[trigger] m@.values[k]).len() > 0
                    &&& forall|c: int| 0 <= c < m@.values[k].len() ==> m@.values[k][c] != '`'
                },
    {
        let v = &m.values[i];
        let v_len = v.as_str().unicode_len();
        if v_len == 0 {
            proof {
                assert(m@.values[i as int].len() == 0);
            }
            return false;
        }
        for k in 0..v_len
            invariant
                i < m@.values.len(),
                v_len == v@.len(),
                v@ == m@.values[i as int],
                forall|c: int| 0 <= c < k ==> v@[c] != '`',
        {
            if v.as_str().get_char(k) == '`' {
                return false;
            }
        }
    }
    true
}

/// The path `/a/b/` built from the segments `a`, `b`.
pub open spec fn path_of_segments(segments: Seq<Seq<char>>) -> Seq<char>
    decreases segments.len(),
{
    if segments.len() == 0 {
        seq!['/']
    } else {
        path_of_segments(segments.drop_last()) + segments.last() + seq!['/']
    }
}

/// Builds the path `/a/b/` from the segments `a`, `b`.
pub fn segments_path_exec(segments: &Vec<String>) -> (r: String)
    ensures
        r@ == path_of_segments(string_views(segments@)),
{
    let mut r = String::new();
    r.append("/");
    proof {
        reveal_strlit("/");
        assert(r@ =~= path_of_segments(string_views(segments@.subrange(0, 0))));
    }
    for i in 0..segments.len()
        invariant
            r@ =~= path_of_segments(string_views(segments@.subrange(0, i as int))),
    {
        r.append(segments[i].as_str());
        r.append("/");
        proof {
            reveal_strlit("/");
            let pre = segments@.subrange(0, i as int);
            let cur = segments@.subrange(0, i + 1 as int);
            assert(cur.drop_last() =~= pre);
            assert(cur.last() == segments@[i as int]);
            lemma_string_views_push(pre, segments@[i as int]);
            assert(string_views(cur) =~= string_views(pre).push(segments@[i as int]@));
            assert(string_views(cur).drop_last() =~= string_views(pre));
            assert(string_views(cur).last() == segments@[i as int]@);
            assert(r@ =~= path_of_segments(string_views(cur)));
        }
    }
    proof {
        assert(segments@.subrange(0, segments@.len() as int) =~= segments@);
    }
    r
}

/// The mathematical form of a middleware reference.
#[verifier::ext_equal]
pub enum TraefikMiddlewareView {
    Ref(Seq<char>),
    Spec { name: Seq<char>, spec: JsonView },
}

/// A middleware a route refers to: either a named reference to an
/// existing object, or an inline specification to be materialized as its
/// own object.
#[derive(Debug, PartialEq, Eq)]
pub enum TraefikMiddleware {
    Ref(String),
    Spec { name: String, spec: JsonValue },
}

impl View for TraefikMiddleware {
    type V = TraefikMiddlewareView;

    open spec fn view(&self) -> TraefikMiddlewareView {
        match self {
            TraefikMiddleware::Ref(name) => TraefikMiddlewareView::Ref(name@),
            TraefikMiddleware::Spec { name, spec } => TraefikMiddlewareView::Spec {
                name: name@,
                spec: spec@,
            },
        }
    }
}

/// The mathematical forms of a list of middleware references.
pub open spec fn middleware_views(s: Seq<TraefikMiddleware>) -> Seq<TraefikMiddlewareView> {
    s.map_values(|m: TraefikMiddleware| m@)
}

/// The mathematical form of one route entry.
#[verifier::ext_equal]
pub struct RouteEntryView {
    pub rule: Seq<MatcherView>,
    pub middlewares: Seq<TraefikMiddlewareView>,
}

/// One route entry: a rule and the middlewares applied to requests that
/// match it.
#[derive(Debug, PartialEq, Eq)]
pub struct TraefikIngressRouteEntry {
    rule: TraefikRouterRule,
    middlewares: Vec<TraefikMiddleware>,
}

impl View for TraefikIngressRouteEntry {
    type V = RouteEntryView;

    closed spec fn view(&self) -> RouteEntryView {
        RouteEntryView { rule: self.rule@, middlewares: middleware_views(self.middlewares@) }
    }
}

impl TraefikIngressRouteEntry {
    pub fn new(rule: TraefikRouterRule, middlewares: Vec<TraefikMiddleware>) -> (r:
        TraefikIngressRouteEntry)
        ensures
            r@ == (RouteEntryView { rule: rule@, middlewares: middleware_views(middlewares@) }),
    {
        TraefikIngressRouteEntry { rule, middlewares }
    }

    pub fn rule(&self) -> (r: &TraefikRouterRule)
        ensures
            r@ == self@.rule,
    {
        &self.rule
    }

    pub fn middlewares(&self) -> (r: &Vec<TraefikMiddleware>)
        ensures
            middleware_views(r@) == self@.middlewares,
    {
        &self.middlewares
    }
}

/// The mathematical forms of a list of route entries.
pub open spec fn entry_views(s: Seq<TraefikIngressRouteEntry>) -> Seq<RouteEntryView> {
    s.map_values(|e: TraefikIngressRouteEntry| e@)
}

/// The mathematical form of an ingress route.
#[verifier::ext_equal]
pub struct TraefikIngressRouteView {
    pub entrypoints: Seq<Seq<char>>,
    pub routes: Seq<RouteEntryView>,
    pub tls_cert_resolver: Option<Seq<char>>,
}

/// The routing model of one service: the entrypoints it listens on, its
/// route entries, and an optional TLS certificate resolver.
#[derive(Debug, PartialEq, Eq)]
pub struct TraefikIngressRoute {
    entrypoints: Vec<String>,
    routes: Vec<TraefikIngressRouteEntry>,
    tls_cert_resolver: Option<String>,
}

impl View for TraefikIngressRoute {
    type V = TraefikIngressRouteView;

    closed spec fn view(&self) -> TraefikIngressRouteView {
        TraefikIngressRouteView {
            entrypoints: string_views(self.entrypoints@),
            routes: entry_views(self.routes@),
            tls_cert_resolver: self.tls_cert_resolver.deep_view(),
        }
    }
}

/// The default path of a service: `/{app}/{service}/`, with the
/// application name as supplied.
pub open spec fn default_prefix_path(app: Seq<char>, service: Seq<char>) -> Seq<char> {
    seq!['/'] + app + seq!['/'] + service + seq!['/']
}

/// The default middleware name of a service: `{app}-{service}-middleware`.
pub open spec fn default_middleware_name(app: Seq<char>, service: Seq<char>) -> Seq<char> {
    app + seq!['-'] + service + "-middleware"@
}

/// The default middleware specification of a service: a strip-prefix of
/// its default path.
pub open spec fn default_middleware_spec(app: Seq<char>, service: Seq<char>) -> JsonView {
    JsonView::Obj(
        seq![
            (
                "stripPrefix"@,
                JsonView::Obj(
                    seq![
                        ("prefixes"@, JsonView::Arr(seq![
                            JsonView::Str(default_prefix_path(app, service)),
                        ])),
                    ],
                ),
            ),
        ],
    )
}

/// The default rule of a service: a single path-prefix predicate over its
/// default path.
pub open spec fn default_rule(app: Seq<char>, service: Seq<char>) -> Seq<MatcherView> {
    seq![
        MatcherView {
            kind: MatcherKind::PathPrefix,
            values: seq![default_prefix_path(app, service)],
        },
    ]
}

impl TraefikIngressRoute {
    /// A route with the given rule, no entrypoints, no middlewares and no
    /// TLS resolver.
    pub fn with_rule(rule: TraefikRouterRule) -> (r: TraefikIngressRoute)
        ensures
            r@ == (TraefikIngressRouteView {
                entrypoints: Seq::empty(),
                routes: seq![RouteEntryView { rule: rule@, middlewares: Seq::empty() }],
                tls_cert_resolver: Option::None,
            }),
    {
        let mut routes: Vec<TraefikIngressRouteEntry> = Vec::new();
        routes.push(TraefikIngressRouteEntry { rule, middlewares: Vec::new() });
        let r = TraefikIngressRoute { entrypoints: Vec::new(), routes, tls_cert_resolver: None };
        proof {
            assert(r@.entrypoints =~= Seq::<Seq<char>>::empty());
            assert(r@.routes =~= seq![r.routes@[0]@]);
            assert(r.routes@[0]@.middlewares =~= Seq::<TraefikMiddlewareView>::empty());
            assert(r@ =~= (TraefikIngressRouteView {
                entrypoints: Seq::empty(),
                routes: seq![RouteEntryView { rule: r.routes@[0].rule@, middlewares: Seq::empty() }],
                tls_cert_resolver: Option::None,
            }));
        }
        r
    }

    /// The route a service gets when the caller supplied none: the default
    /// path-prefix rule and an inline strip-prefix middleware named after
    /// the application and the service.
    pub fn with_defaults(app_name: &AppName, service_name: &str) -> (r: TraefikIngressRoute)
        ensures
            r@ == (TraefikIngressRouteView {
                entrypoints: Seq::empty(),
                routes: seq![
                    RouteEntryView {
                        rule: default_rule(app_name@, service_name@),
                        middlewares: seq![
                            TraefikMiddlewareView::Spec {
                                name: default_middleware_name(app_name@, service_name@),
                                spec: default_middleware_spec(app_name@, service_name@),
                            },
                        ],
                    },
                ],
                tls_cert_resolver: Option::None,
            }),
    {
        let mut path = String::new();
        path.append("/");
        path.append(app_name.as_str());
        path.append("/");
        path.append(service_name);
        path.append("/");
        proof {
            reveal_strlit("/");
            assert(path@ =~= default_prefix_path(app_name@, service_name@));
        }
        let path_for_rule = path.clone();
        let mut middleware_name = String::new();
        middleware_name.append(app_name.as_str());
        middleware_name.append("-");
        middleware_name.append(service_name);
        middleware_name.append("-middleware");
        proof {
            reveal_strlit("-");
            reveal_strlit("-middleware");
            assert(middleware_name@ =~= default_middleware_name(app_name@, service_name@));
        }
        let ghost path_view = path@;
        let path_value = JsonValue::Str(path);
        proof {
            assert(path_value@ == JsonView::Str(path_view));
        }
        let mut prefixes: Vec<JsonValue> = Vec::new();
        prefixes.push(path_value);
        let arr_value = JsonValue::Arr(prefixes);
        proof {
            assert(arr_value->Arr_0@.drop_last() =~= Seq::<JsonValue>::empty());
            assert(crate::json::json_view_seq(Seq::<JsonValue>::empty())
                =~= Seq::<JsonView>::empty());
            assert(arr_value@ =~~= JsonView::Arr(seq![JsonView::Str(path_view)]));
        }
        let mut inner: Vec<(String, JsonValue)> = Vec::new();
        inner.push((String::from_str("prefixes"), arr_value));
        let inner_value = JsonValue::Obj(inner);
        proof {
            reveal_strlit("prefixes");
            assert(inner_value->Obj_0@.drop_last() =~= Seq::<(String, JsonValue)>::empty());
            assert(crate::json::json_view_entries(Seq::<(String, JsonValue)>::empty())
                =~= Seq::<(Seq<char>, JsonView)>::empty());
            assert(inner_value@ =~~= JsonView::Obj(seq![
                ("prefixes"@, JsonView::Arr(seq![JsonView::Str(path_view)])),
            ]));
        }
        let mut outer: Vec<(String, JsonValue)> = Vec::new();
        outer.push((String::from_str("stripPrefix"), inner_value));
        let spec_value = JsonValue::Obj(outer);
        proof {
            reveal_strlit("stripPrefix");
            assert(spec_value->Obj_0@.drop_last() =~= Seq::<(String, JsonValue)>::empty());
            assert(crate::json::json_view_entries(Seq::<(String, JsonValue)>::empty())
                =~= Seq::<(Seq<char>, JsonView)>::empty());
            assert(spec_value@ =~~= default_middleware_spec(app_name@, service_name@));
        }
        let mut values: Vec<String> = Vec::new();
        values.push(path_for_rule);
        let first_matcher = Matcher { kind: MatcherKind::PathPrefix, values };
        proof {
            assert(first_matcher@.values =~= seq![
                default_prefix_path(app_name@, service_name@),
            ]);
            assert(first_matcher@ =~= default_rule(app_name@, service_name@)[0]);
        }
        let mut matchers: Vec<Matcher> = Vec::new();
        matchers.push(first_matcher);
        let rule = TraefikRouterRule { matchers };
        proof {
            assert(rule@ =~= default_rule(app_name@, service_name@));
        }
        let mut middlewares: Vec<TraefikMiddleware> = Vec::new();
        middlewares.push(TraefikMiddleware::Spec { name: middleware_name, spec: spec_value });
        let mut routes: Vec<TraefikIngressRouteEntry> = Vec::new();
        routes.push(TraefikIngressRouteEntry { rule, middlewares });
        let r = TraefikIngressRoute { entrypoints: Vec::new(), routes, tls_cert_resolver: None };
        proof {
            assert(r@.entrypoints =~= Seq::<Seq<char>>::empty());
            assert(r@.routes =~= seq![r.routes@[0]@]);
            assert(r.routes@[0]@.middlewares =~= seq![r.routes@[0].middlewares@[0]@]);
            assert(r@ =~~= (TraefikIngressRouteView {
                entrypoints: Seq::empty(),
                routes: seq![
                    RouteEntryView {
                        rule: default_rule(app_name@, service_name@),
                        middlewares: seq![
                            TraefikMiddlewareView::Spec {
                                name: default_middleware_name(app_name@, service_name@),
                                spec: default_middleware_spec(app_name@, service_name@),
                            },
                        ],
                    },
                ],
                tls_cert_resolver: Option::None,
            }));
        }
        r
    }

    /// A route rebuilt from stored parts: the entrypoints, one rule, the
    /// middlewares by name, and an optional TLS certificate resolver.
    pub fn with_existing_routing_rules(
        entrypoints: Vec<String>,
        rule: TraefikRouterRule,
        middleware_names: Vec<String>,
        cert_resolver: Option<String>,
    ) -> (r: TraefikIngressRoute)
        ensures
            r@ == (TraefikIngressRouteView {
                entrypoints: string_views(entrypoints@),
                routes: seq![
                    RouteEntryView {
                        rule: rule@,
                        middlewares: string_views(middleware_names@).map_values(
                            |n: Seq<char>| TraefikMiddlewareView::Ref(n),
                        ),
                    },
                ],
                tls_cert_resolver: cert_resolver.deep_view(),
            }),
    {
        let mut middlewares: Vec<TraefikMiddleware> = Vec::new();
        for i in 0..middleware_names.len()
            invariant
                middlewares@.len() == i,
                forall|k: int|
                    0 <= k < i ==> (#[trigger] middlewares@[k])@ == TraefikMiddlewareView::Ref(
                        middleware_names@[k]@,
                    ),
        {
            let mw = TraefikMiddleware::Ref(middleware_names[i].clone());
            proof {
                assert(mw@ == TraefikMiddlewareView::Ref(middleware_names@[i as int]@));
            }
            middlewares.push(mw);
        }
        proof {
            assert(middleware_views(middlewares@) =~= string_views(middleware_names@).map_values(
                |n: Seq<char>| TraefikMiddlewareView::Ref(n),
            ));
        }
        let mut routes: Vec<TraefikIngressRouteEntry> = Vec::new();
        routes.push(TraefikIngressRouteEntry { rule, middlewares });
        let r = TraefikIngressRoute { entrypoints, routes, tls_cert_resolver: cert_resolver };
        proof {
            assert(r@.routes =~= seq![r.routes@[0]@]);
            assert(r@ =~~= (TraefikIngressRouteView {
                entrypoints: string_views(r.entrypoints@),
                routes: seq![r.routes@[0]@],
                tls_cert_resolver: r.tls_cert_resolver.deep_view(),
            }));
        }
        r
    }

    /// A route made of the given entries, with no entrypoints and no TLS
    /// resolver.
    pub fn from_entries(entries: Vec<TraefikIngressRouteEntry>) -> (r: TraefikIngressRoute)
        ensures
            r@ == (TraefikIngressRouteView {
                entrypoints: Seq::empty(),
                routes: entry_views(entries@),
                tls_cert_resolver: Option::None,
            }),
    {
        let r = TraefikIngressRoute { entrypoints: Vec::new(), routes: entries, tls_cert_resolver: None };
        proof {
            assert(r@.entrypoints =~= Seq::<Seq<char>>::empty());
            assert(r@ =~~= (TraefikIngressRouteView {
                entrypoints: Seq::empty(),
                routes: entry_views(r.routes@),
                tls_cert_resolver: Option::None,
            }));
        }
        r
    }

    /// The route entries.
    pub fn routes(&self) -> (r: &Vec<TraefikIngressRouteEntry>)
        ensures
            entry_views(r@) == self@.routes,
    {
        &self.routes
    }

    /// The entrypoints the route listens on.
    pub fn entrypoints(&self) -> (r: &Vec<String>)
        ensures
            string_views(r@) == self@.entrypoints,
    {
        &self.entrypoints
    }

    /// The TLS certificate resolver, where one is set.
    pub fn tls_cert_resolver(&self) -> (r: &Option<String>)
        ensures
            r.deep_view() == self@.tls_cert_resolver,
    {
        &self.tls_cert_resolver
    }
}


} // verus!
