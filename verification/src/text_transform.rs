//! A small rule engine: ordered plain-string replacements.
//!
//! Query normalisation (before a search) and person correction (after the
//! model answers) both replace strings by rules kept outside the code; the
//! rules are applied one after another, each to the output of the previous one.
use vstd::prelude::*;

use crate::text::{chars_of, contains, contains_seq, replace_all, replace_all_chars, string_of};

verus! {

/// One replacement rule: every occurrence of `pattern` becomes `replacement`.
pub struct Rule {
    pub id: String,
    pub pattern: String,
    pub replacement: String,
}

/// A rule as three character sequences.
pub ghost struct RuleView {
    pub id: Seq<char>,
    pub pattern: Seq<char>,
    pub replacement: Seq<char>,
}

impl View for Rule {
    type V = RuleView;

    open spec fn view(&self) -> RuleView {
        RuleView { id: self.id@, pattern: self.pattern@, replacement: self.replacement@ }
    }
}

impl Clone for Rule {
    fn clone(&self) -> (r: Self)
        ensures
            r@ == self@,
    {
        Rule { id: self.id.clone(), pattern: self.pattern.clone(), replacement: self.replacement.clone() }
    }
}

/// The views of a list of rules.
pub open spec fn rules_view(rules: Seq<Rule>) -> Seq<RuleView> {
    rules.map_values(|r: Rule| r@)
}

/// The text after the rules are applied in order, and the ids of the rules that
/// fired, in order. A rule fires when its pattern occurs in the text as it stands
/// when the rule's turn comes; it then replaces every occurrence.
pub open spec fn apply_rules_spec(text: Seq<char>, rules: Seq<RuleView>) -> (Seq<char>, Seq<
    Seq<char>,
>)
    decreases rules.len(),
{
    if rules.len() == 0 {
        (text, Seq::empty())
    } else {
        let (t, ids) = apply_rules_spec(text, rules.drop_last());
        let r = rules.last();
        if contains_seq(t, r.pattern) {
            (replace_all(t, r.pattern, r.replacement), ids.push(r.id))
        } else {
            (t, ids)
        }
    }
}

/// Applies the rules in order. Returns the transformed text and the ids of the
/// rules that fired, for the caller's log.
pub fn apply_rules(text: &str, rules: &[Rule]) -> (res: (String, Vec<String>))
    ensures
        res.0@ == apply_rules_spec(text@, rules_view(rules@)).0,
        res.1@.map_values(|s: String| s@) == apply_rules_spec(text@, rules_view(rules@)).1,
{
    let mut result = chars_of(text);
    let mut triggered: Vec<String> = Vec::new();
    let mut i: usize = 0;
    while i < rules.len()
        invariant
            i <= rules@.len(),
            result@ == apply_rules_spec(text@, rules_view(rules@.subrange(0, i as int))).0,
            triggered@.map_values(|s: String| s@) == apply_rules_spec(
                text@,
                rules_view(rules@.subrange(0, i as int)),
            ).1,
        decreases rules@.len() - i,
    {
        let rule = &rules[i];
        let ghost prefix = rules_view(rules@.subrange(0, i as int));
        let ghost next = rules_view(rules@.subrange(0, i + 1));
        assert(next.drop_last() =~= prefix);
        assert(next.last() == rule@);
        let pattern = chars_of(rule.pattern.as_str());
        if contains(result.as_slice(), pattern.as_slice()) {
            let replacement = chars_of(rule.replacement.as_str());
            result = replace_all_chars(result.as_slice(), pattern.as_slice(), replacement.as_slice());
            let ghost before = triggered@;
            triggered.push(rule.id.clone());
            assert(triggered@.map_values(|s: String| s@) =~= before.map_values(|s: String| s@).push(
                rule.id@,
            ));
        }
        i = i + 1;
    }
    assert(rules@.subrange(0, rules@.len() as int) =~= rules@);
    (string_of(result.as_slice()), triggered)
}

/// No rules leave the text as it is and fire nothing.
pub proof fn lemma_no_rules_identity(text: Seq<char>)
    ensures
        apply_rules_spec(text, Seq::empty()) == (text, Seq::<Seq<char>>::empty()),
{
}

/// Applying two rule lists one after the other is applying their concatenation:
/// the text is transformed by the first list, then by the second, and the fired
/// ids of the second list follow those of the first.
pub proof fn lemma_apply_rules_concat(text: Seq<char>, a: Seq<RuleView>, b: Seq<RuleView>)
    ensures
        apply_rules_spec(text, a + b).0 == apply_rules_spec(apply_rules_spec(text, a).0, b).0,
        apply_rules_spec(text, a + b).1 == apply_rules_spec(text, a).1 + apply_rules_spec(
            apply_rules_spec(text, a).0,
            b,
        ).1,
    decreases b.len(),
{
    if b.len() == 0 {
        assert(a + b =~= a);
        assert(apply_rules_spec(text, a).1 + Seq::<Seq<char>>::empty() =~= apply_rules_spec(text, a).1);
    } else {
        assert((a + b).drop_last() =~= a + b.drop_last());
        assert((a + b).last() == b.last());
        lemma_apply_rules_concat(text, a, b.drop_last());
        let mid = apply_rules_spec(text, a).0;
        let (t, ids) = apply_rules_spec(mid, b.drop_last());
        if contains_seq(t, b.last().pattern) {
            assert(apply_rules_spec(text, a).1 + ids.push(b.last().id) =~= (apply_rules_spec(text, a).1
                + ids).push(b.last().id));
        }
    }
}

/// A rule fires only if its pattern occurs in the text it is given; a rule whose
/// pattern does not occur changes nothing.
pub proof fn lemma_single_rule(text: Seq<char>, r: RuleView)
    ensures
        contains_seq(text, r.pattern) ==> apply_rules_spec(text, seq![r]) == (
            replace_all(text, r.pattern, r.replacement),
            seq![r.id],
        ),
        !contains_seq(text, r.pattern) ==> apply_rules_spec(text, seq![r]) == (
            text,
            Seq::<Seq<char>>::empty(),
        ),
{
    let one = seq![r];
    assert(one.drop_last() =~= Seq::<RuleView>::empty());
    assert(one.last() == r);
    assert(apply_rules_spec(text, one.drop_last()) == (text, Seq::<Seq<char>>::empty()));
    assert(Seq::<Seq<char>>::empty().push(r.id) =~= seq![r.id]);
}

/// At most one id per rule is reported.
pub proof fn lemma_fired_ids_bounded(text: Seq<char>, rules: Seq<RuleView>)
    ensures
        apply_rules_spec(text, rules).1.len() <= rules.len(),
    decreases rules.len(),
{
    if rules.len() > 0 {
        lemma_fired_ids_bounded(text, rules.drop_last());
    }
}

/// Search-query normalisation: the rules when they could be loaded, else the
/// query unchanged (a missing rule file must not stop the search).
pub fn normalize_search_query(query: &str, rules: &Result<Vec<Rule>, String>) -> (out: String)
    ensures
        match rules {
            Ok(rs) => out@ == apply_rules_spec(query@, rules_view(rs@)).0,
            Err(_) => out@ == query@,
        },
{
    match rules {
        Ok(rs) => apply_rules(query, rs.as_slice()).0,
        Err(_) => query.to_string(),
    }
}

/// Third-person self-reference correction of a reply: the corrected text and the
/// ids of the rules that fired (for the log); the reply unchanged when the rules
/// could not be loaded.
pub fn correct_third_person_self_reference(text: &str, rules: &Result<Vec<Rule>, String>) -> (out: (
    String,
    Vec<String>,
))
    ensures
        match rules {
            Ok(rs) => out.0@ == apply_rules_spec(text@, rules_view(rs@)).0 && out.1@.map_values(
                |s: String| s@,
            ) == apply_rules_spec(text@, rules_view(rs@)).1,
            Err(_) => out.0@ == text@ && out.1@.len() == 0,
        },
{
    match rules {
        Ok(rs) => apply_rules(text, rs.as_slice()),
        Err(_) => (text.to_string(), Vec::new()),
    }
}

} // verus!
