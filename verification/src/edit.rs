//! Editing a rule by hand: lists are written as text with commas between
//! their items.

use vstd::prelude::*;
use crate::text::{views, trimmed, trim_text, chars_of, text_of_range};
use crate::models::{ConditionView, RuleView};
use crate::rule_engine::{EngineView, RuleEngine, find_rule, with_rule};

verus! {

/// The index of the first comma of `s`, or the length of `s` where it has
/// none.
pub open spec fn comma_or_end(s: Seq<char>) -> int
    decreases s.len(),
{
    if s.len() == 0 || s[0] == ',' {
        0
    } else {
        1 + comma_or_end(s.subrange(1, s.len() as int))
    }
}

/// The pieces of a text between its commas, as they are written. A text
/// without a comma is one piece.
pub open spec fn pieces(s: Seq<char>) -> Seq<Seq<char>>
    decreases s.len(),
{
    let k = comma_or_end(s);
    if 0 <= k < s.len() {
        seq![s.subrange(0, k)] + pieces(s.subrange(k + 1, s.len() as int))
    } else {
        seq![s]
    }
}

/// The items that are not empty, in order.
pub open spec fn filled_items(items: Seq<Seq<char>>) -> Seq<Seq<char>>
    decreases items.len(),
{
    if items.len() == 0 {
        Seq::empty()
    } else if items.last().len() > 0 {
        filled_items(items.drop_last()).push(items.last())
    } else {
        filled_items(items.drop_last())
    }
}

/// Every item without the white space at its ends.
pub open spec fn all_trimmed(items: Seq<Seq<char>>) -> Seq<Seq<char>> {
    Seq::new(items.len(), |i: int| trimmed(items[i]))
}

/// The items of a list written as text: what stands between the commas,
/// without white space at its ends, where anything is left of it.
pub open spec fn listed(s: Seq<char>) -> Seq<Seq<char>> {
    filled_items(all_trimmed(pieces(s)))
}

/// The first comma lies within the text.
pub proof fn lemma_comma_or_end(s: Seq<char>)
    ensures
        0 <= comma_or_end(s) <= s.len(),
        comma_or_end(s) < s.len() ==> s[comma_or_end(s)] == ',',
        forall|i: int| 0 <= i < comma_or_end(s) ==> s[i] != ',',
    decreases s.len(),
{
    if s.len() > 0 && s[0] != ',' {
        let rest = s.subrange(1, s.len() as int);
        lemma_comma_or_end(rest);
        assert forall|i: int| 0 <= i < comma_or_end(s) implies s[i] != ',' by {
            if i > 0 {
                assert(rest[i - 1] == s[i]);
            }
        }
        if comma_or_end(s) < s.len() {
            assert(rest[comma_or_end(rest)] == s[comma_or_end(s)]);
        }
    }
}

/// The first comma of a text is the first position that holds one.
pub proof fn lemma_comma_found(s: Seq<char>, k: int)
    requires
        0 <= k <= s.len(),
        k < s.len() ==> s[k] == ',',
        forall|i: int| 0 <= i < k ==> s[i] != ',',
    ensures
        comma_or_end(s) == k,
{
    lemma_comma_or_end(s);
    let c = comma_or_end(s);
    if c < k {
        assert(s[c] == ',');
    }
}

/// The pieces of a text between its commas.
pub fn comma_pieces(text: &str) -> (r: Vec<String>)
    ensures
        views(r@) == pieces(text@),
{
    let v = chars_of(text);
    let n = v.len();
    let mut out: Vec<String> = Vec::new();
    let mut start: usize = 0;
    assert(views(out@) =~= Seq::empty());
    assert(v@.subrange(0, n as int) =~= v@);
    assert(Seq::<Seq<char>>::empty() + pieces(v@) =~= pieces(v@));
    loop
        invariant
            start <= n,
            n == v@.len(),
            v@ == text@,
            views(out@) + pieces(v@.subrange(start as int, n as int)) == pieces(v@),
        decreases n - start,
    {
        let ghost rest = v@.subrange(start as int, n as int);
        let mut end: usize = start;
        while end < n && v[end] != ','
            invariant
                start <= end <= n,
                n == v@.len(),
                forall|i: int| start <= i < end ==> v@[i] != ',',
            decreases n - end,
        {
            end += 1;
        }
        proof {
            lemma_comma_found(rest, end - start);
            assert(rest.subrange(0, end - start) =~= v@.subrange(start as int, end as int));
        }
        let piece = text_of_range(&v, start, end);
        let ghost before = views(out@);
        out.push(piece);
        assert(views(out@) =~= before.push(piece@));
        if end == n {
            proof {
                assert(piece@ =~= rest);
                assert(views(out@) =~= before + pieces(rest));
            }
            return out;
        }
        proof {
            let tail = v@.subrange(end + 1, n as int);
            assert(rest.subrange(end - start + 1, rest.len() as int) =~= tail);
            assert(before + pieces(rest) =~= views(out@) + pieces(tail));
        }
        start = end + 1;
    }
}

/// Every item without the white space at its ends.
pub fn trim_all(items: &[String]) -> (r: Vec<String>)
    ensures
        views(r@) == all_trimmed(views(items@)),
{
    let mut out: Vec<String> = Vec::new();
    let mut i: usize = 0;
    while i < items.len()
        invariant
            i <= items@.len(),
            out@.len() == i,
            forall|j: int| 0 <= j < i ==> (#[trigger] out@[j])@ == trimmed(items@[j]@),
        decreases items@.len() - i,
    {
        out.push(trim_text(items[i].as_str()));
        i += 1;
    }
    assert(views(out@) =~= all_trimmed(views(items@)));
    out
}

/// The items that are not empty, in order.
pub fn drop_empty(items: &[String]) -> (r: Vec<String>)
    ensures
        views(r@) == filled_items(views(items@)),
{
    let ghost all = views(items@);
    let mut out: Vec<String> = Vec::new();
    let mut i: usize = 0;
    assert(all.take(0) =~= Seq::empty());
    assert(views(out@) =~= Seq::empty());
    while i < items.len()
        invariant
            i <= items@.len(),
            all == views(items@),
            views(out@) == filled_items(all.take(i as int)),
        decreases items@.len() - i,
    {
        proof {
            assert(all.take(i + 1).drop_last() =~= all.take(i as int));
            assert(all.take(i + 1).last() == items@[i as int]@);
        }
        if chars_of(items[i].as_str()).len() > 0 {
            let ghost before = views(out@);
            out.push(items[i].clone());
            assert(views(out@) =~= before.push(items@[i as int]@));
        }
        i += 1;
    }
    assert(all.take(all.len() as int) =~= all);
    out
}

/// The items of a list written as text.
pub fn split_list(text: &str) -> (r: Vec<String>)
    ensures
        views(r@) == listed(text@),
{
    let raw = comma_pieces(text);
    let trimmed = trim_all(raw.as_slice());
    drop_empty(trimmed.as_slice())
}

/// The items of a list joined into one text, with a comma and a blank
/// between them.
pub open spec fn joined(items: Seq<Seq<char>>) -> Seq<char>
    decreases items.len(),
{
    if items.len() == 0 {
        Seq::empty()
    } else if items.len() == 1 {
        items[0]
    } else {
        joined(items.drop_last()) + ", "@ + items.last()
    }
}

/// A list written as text.
pub fn join_list(items: &[String]) -> (r: String)
    ensures
        r@ == joined(views(items@)),
{
    let ghost all = views(items@);
    let mut out = String::new();
    let mut i: usize = 0;
    assert(all.take(0) =~= Seq::empty());
    while i < items.len()
        invariant
            i <= items@.len(),
            all == views(items@),
            out@ == joined(all.take(i as int)),
        decreases items@.len() - i,
    {
        proof {
            assert(all.take(i + 1).drop_last() =~= all.take(i as int));
            assert(all.take(i + 1).last() == items@[i as int]@);
        }
        if i > 0 {
            out.append(", ");
        }
        out.append(items[i].as_str());
        proof {
            if i == 0 {
                assert(out@ =~= items@[0]@);
            }
        }
        i += 1;
    }
    assert(all.take(all.len() as int) =~= all);
    out
}

/// What an edit sets in a rule, as a value.
pub struct EditView {
    pub name: Seq<char>,
    pub target: Seq<char>,
    pub extensions: Seq<Seq<char>>,
    pub keywords: Seq<Seq<char>>,
    pub tags: Seq<Seq<char>>,
    pub priority: u8,
}

/// What an edit sets in a rule.
#[derive(Debug)]
pub struct EditedRuleData {
    pub name: String,
    pub target: String,
    pub extensions: Vec<String>,
    pub keywords: Vec<String>,
    pub tags: Vec<String>,
    pub priority: u8,
}

impl View for EditedRuleData {
    type V = EditView;

    open spec fn view(&self) -> EditView {
        EditView {
            name: self.name@,
            target: self.target@,
            extensions: views(self.extensions@),
            keywords: views(self.keywords@),
            tags: views(self.tags@),
            priority: self.priority,
        }
    }
}

impl EditedRuleData {
    /// The edit that the fields of a form stand for; the three lists are
    /// written with commas.
    pub fn from_fields(
        name: &str,
        target: &str,
        extensions: &str,
        keywords: &str,
        tags: &str,
        priority: u8,
    ) -> (r: EditedRuleData)
        ensures
            r@ == (EditView {
                name: name@,
                target: target@,
                extensions: listed(extensions@),
                keywords: listed(keywords@),
                tags: listed(tags@),
                priority,
            }),
    {
        EditedRuleData {
            name: String::from_str(name),
            target: String::from_str(target),
            extensions: split_list(extensions),
            keywords: split_list(keywords),
            tags: split_list(tags),
            priority,
        }
    }
}

/// A rule after an edit: its name, its target, three of its lists and its
/// priority are set; everything else stays.
pub open spec fn edited(rule: RuleView, edit: EditView) -> RuleView {
    RuleView {
        name: edit.name,
        action: edit.target,
        condition: ConditionView {
            file_extensions: edit.extensions,
            filename_keywords: edit.keywords,
            semantic_tags: edit.tags,
            ..rule.condition
        },
        priority: edit.priority,
        ..rule
    }
}

/// The engine after the first rule with the identifier `id`, if there is
/// one, was edited: the rule is taken out and put back where its new
/// priority places it.
pub open spec fn after_edit(engine: EngineView, id: Seq<char>, edit: EditView) -> EngineView {
    match find_rule(engine.rules, id, false, 0) {
        Some(k) => EngineView {
            rules: with_rule(engine.rules.remove(k), edited(engine.rules[k], edit)),
            ..engine
        },
        None => engine,
    }
}

impl RuleEngine {
    /// Edits the first rule with the identifier `rule_id` and says whether
    /// there was one.
    pub fn update_rule(&mut self, rule_id: &str, edit: EditedRuleData) -> (r: bool)
        ensures
            r == find_rule(old(self)@.rules, rule_id@, false, 0) is Some,
            final(self)@ == after_edit(old(self)@, rule_id@, edit@),
    {
        match self.locate(rule_id, false) {
            Some(k) => {
                let mut rule = self.take_rule(k);
                rule.name = edit.name;
                rule.action.move_to = edit.target;
                rule.condition.file_extensions = edit.extensions;
                rule.condition.filename_keywords = edit.keywords;
                rule.condition.semantic_tags = edit.tags;
                rule.priority = edit.priority;
                self.add_rule(rule);
                true
            },
            None => false,
        }
    }
}

} // verus!
