//! Watch expressions: project state, and what one of them evaluated to.
use vstd::prelude::*;

use crate::inspect::EvalResult;
use crate::selector::{join_numbers, push_numbers};
use crate::text;

verus! {

/// Identifies one watch for as long as the project keeps it.
#[derive(Debug, Clone, Copy, PartialEq, Eq, Structural, PartialOrd, Ord, Hash)]
pub struct WatchId(pub u32);

impl WatchId {
    /// Reads an id the way `u32::from_str` reads the trimmed text.
    pub fn parse(s: &str) -> (r: Result<WatchId, crate::breakpoint::BadId>)
        ensures
            r matches Ok(id) ==> text::parse_u32(text::trim(s@)) == Some(id.0),
            r is Err <==> text::parse_u32(text::trim(s@)) is None,
    {
        let v = text::chars_of(s);
        let (a, b) = text::trim_bounds(&v);
        match text::parse_u32_range(&v, a, b) {
            Some(n) => Ok(WatchId(n)),
            None => Err(crate::breakpoint::BadId),
        }
    }

    /// The id as it is printed: the bare number.
    pub fn to_string(&self) -> (r: String)
        ensures
            r@ == text::decimal(self.0 as nat),
    {
        let mut r = String::new();
        text::push_decimal(&mut r, self.0 as u64);
        r
    }
}

/// An expression the project wants evaluated at every stop.
#[derive(Debug, Clone, PartialEq, Eq)]
pub struct Watch {
    pub id: WatchId,
    /// Handed to the adapter untouched.
    pub expression: String,
    /// What to call it on screen; `None` means the expression is its label.
    pub label: Option<String>,
}

pub open spec fn display_name_of(watch: Watch) -> Seq<char> {
    match watch.label {
        Some(label) => label@,
        None => watch.expression@,
    }
}

impl Watch {
    /// An exact copy.
    pub fn duplicate(&self) -> (r: Watch)
        ensures
            r == *self,
    {
        Watch {
            id: self.id,
            expression: self.expression.clone(),
            label: crate::breakpoint::copy_opt_string(&self.label),
        }
    }

    /// The label if there is one, the expression otherwise.
    pub fn display_name(&self) -> (r: &str)
        ensures
            r@ == display_name_of(*self),
    {
        match &self.label {
            Some(label) => label.as_str(),
            None => self.expression.as_str(),
        }
    }
}

/// A watch that does not have an id yet.
#[derive(Debug, Clone, PartialEq, Eq)]
pub struct NewWatch {
    pub expression: String,
    pub label: Option<String>,
}

/// What a watch came to at one stop. An expression out of scope is an
/// ordinary outcome, so the error is a variant rather than a failure.
#[derive(Debug, Clone, PartialEq, Eq)]
pub enum WatchValue {
    Value(EvalResult),
    Error(String),
}

impl WatchValue {
    /// One line for a table cell: the value, or the adapter's refusal.
    pub fn summary(&self) -> (r: String)
        ensures
            r@ == (match *self {
                WatchValue::Value(result) => result.value@,
                WatchValue::Error(error) => error@,
            }),
    {
        match self {
            WatchValue::Value(result) => result.value.clone(),
            WatchValue::Error(error) => error.clone(),
        }
    }

    /// The adapter's type name, when it gave one.
    pub fn value_type(&self) -> (r: Option<&str>)
        ensures
            match *self {
                WatchValue::Value(result) => match result.value_type {
                    Some(t) => r matches Some(s) && s@ == t@,
                    None => r is None,
                },
                WatchValue::Error(_) => r is None,
            },
    {
        match self {
            WatchValue::Value(result) => match &result.value_type {
                Some(t) => Some(t.as_str()),
                None => None,
            },
            WatchValue::Error(_) => None,
        }
    }

    pub fn is_error(&self) -> (r: bool)
        ensures
            r <==> *self is Error,
    {
        match self {
            WatchValue::Error(_) => true,
            WatchValue::Value(_) => false,
        }
    }
}

/// Which watches a command is talking about.
#[derive(Debug, Clone, PartialEq, Eq)]
pub enum WatchSelector {
    /// Named explicitly. Unknown ids simply do not match.
    Ids(Vec<WatchId>),
    /// Whatever was written, matched whole.
    Expression(String),
    All,
}

pub open spec fn watch_selects(selector: WatchSelector, watch: Watch) -> bool {
    match selector {
        WatchSelector::Ids(ids) => ids@.contains(watch.id),
        WatchSelector::Expression(expression) => watch.expression@ == expression@,
        WatchSelector::All => true,
    }
}

pub open spec fn watches_picked(selector: WatchSelector, held: Seq<Watch>) -> Seq<Watch> {
    held.filter(|w: Watch| watch_selects(selector, w))
}

pub open spec fn watch_describe_text(selector: WatchSelector) -> Seq<char> {
    match selector {
        WatchSelector::Ids(ids) => "id "@ + join_numbers(ids@.map_values(|i: WatchId| i.0)),
        WatchSelector::Expression(expression) => seq!['`'] + expression@ + seq!['`'],
        WatchSelector::All => "all watches"@,
    }
}

fn watch_id_listed(ids: &Vec<WatchId>, id: WatchId) -> (r: bool)
    ensures
        r == ids@.contains(id),
{
    let mut i: usize = 0;
    while i < ids.len()
        invariant
            i <= ids@.len(),
            forall|k: int| 0 <= k < i ==> ids@[k] != id,
        decreases ids.len() - i,
    {
        if ids[i] == id {
            assert(ids@[i as int] == id);
            return true;
        }
        i = i + 1;
    }
    false
}

impl WatchSelector {
    /// The watches this selector picks out, in the order they are held.
    pub fn pick(&self, watches: &Vec<Watch>) -> (r: Vec<Watch>)
        ensures
            r@ == watches_picked(*self, watches@),
    {
        let mut r: Vec<Watch> = Vec::new();
        let mut i: usize = 0;
        while i < watches.len()
            invariant
                i <= watches@.len(),
                r@ == watches_picked(*self, watches@.take(i as int)),
            decreases watches.len() - i,
        {
            proof {
                reveal_with_fuel(Seq::filter, 1);
                assert(watches@.take(i + 1).drop_last() =~= watches@.take(i as int));
            }
            if self.matches(&watches[i]) {
                r.push(watches[i].duplicate());
            }
            i = i + 1;
        }
        assert(watches@.take(watches@.len() as int) =~= watches@);
        r
    }

    pub fn matches(&self, watch: &Watch) -> (r: bool)
        ensures
            r == watch_selects(*self, *watch),
    {
        match self {
            WatchSelector::Ids(ids) => watch_id_listed(ids, watch.id),
            WatchSelector::Expression(expression) => watch.expression == *expression,
            WatchSelector::All => true,
        }
    }

    /// How to describe the selection in an error or a table.
    pub fn describe(&self) -> (r: String)
        ensures
            r@ == watch_describe_text(*self),
    {
        match self {
            WatchSelector::Ids(ids) => {
                let mut numbers: Vec<u32> = Vec::new();
                let mut i: usize = 0;
                while i < ids.len()
                    invariant
                        i <= ids@.len(),
                        numbers@ == ids@.take(i as int).map_values(|w: WatchId| w.0),
                    decreases ids.len() - i,
                {
                    numbers.push(ids[i].0);
                    i = i + 1;
                    assert(numbers@ =~= ids@.take(i as int).map_values(|w: WatchId| w.0));
                }
                assert(ids@.take(ids@.len() as int) =~= ids@);
                let mut r = text::owned("id ");
                push_numbers(&mut r, &numbers);
                r
            },
            WatchSelector::Expression(expression) => {
                let mut r = String::new();
                text::push_char(&mut r, '`');
                text::push_str(&mut r, expression.as_str());
                text::push_char(&mut r, '`');
                r
            },
            WatchSelector::All => text::owned("all watches"),
        }
    }
}

/// `pick` returns exactly the held watches the selector matches: an
/// expression is matched whole, never as a substring, and `All` is all.
pub proof fn law_watch_pick_is_exactly_the_matching_watches(
    selector: WatchSelector,
    held: Seq<Watch>,
)
    ensures
        forall|i: int|
            0 <= i < watches_picked(selector, held).len() ==> held.contains(
                #[trigger] watches_picked(selector, held)[i],
            ) && watch_selects(selector, watches_picked(selector, held)[i]),
        forall|w: Watch| #[trigger]
            held.contains(w) && watch_selects(selector, w) ==> watches_picked(
                selector,
                held,
            ).contains(w),
        selector is All ==> watches_picked(selector, held) == held,
{
    let f = |w: Watch| watch_selects(selector, w);
    crate::seqs::lemma_filter_subset(held, f);
    assert forall|w: Watch| #[trigger] held.contains(w) && watch_selects(selector, w) implies watches_picked(
        selector,
        held,
    ).contains(w) by {
        crate::seqs::lemma_filter_keeps(held, f, w);
    }
    if selector is All {
        crate::seqs::lemma_filter_all(held, f);
    }
}

/// The ids a selector named that none of `picked` has. Only an id selector
/// can miss: any other kind describes a set, and an empty set is an answer
/// rather than a mistake.
pub open spec fn missing_ids(selector: WatchSelector, picked: Seq<Watch>) -> Seq<WatchId> {
    match selector {
        WatchSelector::Ids(asked) => asked@.filter(
            |id: WatchId| !picked.map_values(|w: Watch| w.id).contains(id),
        ),
        _ => Seq::empty(),
    }
}

fn picked_has(picked: &Vec<Watch>, id: WatchId) -> (r: bool)
    ensures
        r == picked@.map_values(|w: Watch| w.id).contains(id),
{
    let ghost ids = picked@.map_values(|w: Watch| w.id);
    let mut i: usize = 0;
    while i < picked.len()
        invariant
            i <= picked@.len(),
            ids == picked@.map_values(|w: Watch| w.id),
            forall|k: int| 0 <= k < i ==> ids[k] != id,
        decreases picked.len() - i,
    {
        if picked[i].id == id {
            assert(ids[i as int] == id);
            return true;
        }
        i = i + 1;
    }
    false
}

/// Which of the ids a selector named matched nothing, in the order named.
pub fn missing(selector: &WatchSelector, picked: &Vec<Watch>) -> (r: Vec<WatchId>)
    ensures
        r@ == missing_ids(*selector, picked@),
{
    let asked = match selector {
        WatchSelector::Ids(asked) => asked,
        _ => return Vec::new(),
    };
    let mut r: Vec<WatchId> = Vec::new();
    let mut i: usize = 0;
    while i < asked.len()
        invariant
            i <= asked@.len(),
            *selector == WatchSelector::Ids(*asked),
            r@ == asked@.take(i as int).filter(
                |id: WatchId| !picked@.map_values(|w: Watch| w.id).contains(id),
            ),
        decreases asked.len() - i,
    {
        proof {
            reveal_with_fuel(Seq::filter, 1);
            assert(asked@.take(i + 1).drop_last() =~= asked@.take(i as int));
        }
        if !picked_has(picked, asked[i]) {
            r.push(asked[i]);
        }
        i = i + 1;
    }
    assert(asked@.take(asked@.len() as int) =~= asked@);
    r
}

/// What a dry run of `watch add` shows: the watch already held for that
/// expression, which is what adding it again would leave, or the new one
/// under id `0`, since a preview allocates nothing and cannot promise the
/// id it would get.
pub fn preview_watch(existing: Vec<Watch>, new: NewWatch) -> (r: Watch)
    ensures
        existing@.len() > 0 ==> r == existing@[0],
        existing@.len() == 0 ==> r == (Watch { id: WatchId(0), expression: new.expression, label: new.label }),
{
    let mut existing = existing;
    if existing.len() > 0 {
        existing.remove(0)
    } else {
        Watch { id: WatchId(0), expression: new.expression, label: new.label }
    }
}

} // verus!
