//! Which breakpoints a command is talking about. One `pick`, called by both a
//! dry run and the mutation it previews, is what makes the two agree.
use vstd::prelude::*;

use crate::breakpoint::{Breakpoint, BreakpointId};
use crate::text;

verus! {

#[derive(Debug, Clone, PartialEq, Eq)]
pub enum BreakpointSelector {
    /// Named explicitly. Unknown ids simply do not match.
    Ids(Vec<BreakpointId>),
    /// Everything at one `file:line`.
    Location { source: String, line: u32 },
    /// Every breakpoint in one file.
    Source(String),
    All,
}

/// Whether `selector` picks `breakpoint`.
pub open spec fn selects(selector: BreakpointSelector, breakpoint: Breakpoint) -> bool {
    match selector {
        BreakpointSelector::Ids(ids) => ids@.contains(breakpoint.id),
        BreakpointSelector::Location { source, line } => breakpoint.source@ == source@
            && breakpoint.line == line,
        BreakpointSelector::Source(source) => breakpoint.source@ == source@,
        BreakpointSelector::All => true,
    }
}

/// The breakpoints `selector` picks out of `held`, in the order they are held.
pub open spec fn picked(selector: BreakpointSelector, held: Seq<Breakpoint>) -> Seq<Breakpoint> {
    held.filter(|b: Breakpoint| selects(selector, b))
}

/// Ids joined the way a person reads a list: `1, 2, 3`.
pub open spec fn join_numbers(ids: Seq<u32>) -> Seq<char>
    decreases ids.len(),
{
    if ids.len() == 0 {
        Seq::empty()
    } else if ids.len() == 1 {
        text::decimal(ids[0] as nat)
    } else {
        join_numbers(ids.drop_last()) + ", "@ + text::decimal(ids.last() as nat)
    }
}

/// Appends `ids` joined by `, ` to `s`.
pub fn push_numbers(s: &mut String, ids: &Vec<u32>)
    ensures
        final(s)@ == old(s)@ + join_numbers(ids@),
{
    let ghost start = s@;
    let mut i: usize = 0;
    while i < ids.len()
        invariant
            i <= ids@.len(),
            s@ == start + join_numbers(ids@.subrange(0, i as int)),
        decreases ids.len() - i,
    {
        let ghost prefix = ids@.subrange(0, i + 1);
        assert(prefix.drop_last() =~= ids@.subrange(0, i as int));
        if i > 0 {
            text::push_str(s, ", ");
        }
        text::push_decimal(s, ids[i] as u64);
        i = i + 1;
        proof {
            if i == 1 {
                assert(s@ =~= start + join_numbers(prefix));
            } else {
                assert(s@ =~= start + join_numbers(prefix));
            }
        }
    }
    assert(ids@.subrange(0, ids@.len() as int) =~= ids@);
}

/// Whether `id` is one of `ids`.
pub fn id_listed(ids: &Vec<BreakpointId>, id: BreakpointId) -> (r: bool)
    ensures
        r == ids@.contains(id),
{
    let mut i: usize = 0;
    while i < ids.len()
        invariant
            i <= ids@.len(),
            forall|k: int| 0 <= k < i ==> ids@[k] != id,
        decreases ids.len() - i,
    {
        if ids[i] == id {
            assert(ids@[i as int] == id);
            return true;
        }
        i = i + 1;
    }
    false
}

pub open spec fn describe_text(selector: BreakpointSelector) -> Seq<char> {
    match selector {
        BreakpointSelector::Ids(ids) => "id "@ + join_numbers(ids@.map_values(|i: BreakpointId| i.0)),
        BreakpointSelector::Location { source, line } => source@ + seq![':'] + text::decimal(
            line as nat,
        ),
        BreakpointSelector::Source(source) => source@,
        BreakpointSelector::All => "all breakpoints"@,
    }
}

impl BreakpointSelector {
    /// The breakpoints this selector picks out, in the order they are held.
    pub fn pick(&self, breakpoints: &Vec<Breakpoint>) -> (r: Vec<Breakpoint>)
        ensures
            r@ == picked(*self, breakpoints@),
    {
        let mut r: Vec<Breakpoint> = Vec::new();
        let mut i: usize = 0;
        while i < breakpoints.len()
            invariant
                i <= breakpoints@.len(),
                r@ == picked(*self, breakpoints@.take(i as int)),
            decreases breakpoints.len() - i,
        {
            proof {
                reveal_with_fuel(Seq::filter, 1);
                assert(breakpoints@.take(i + 1).drop_last() =~= breakpoints@.take(i as int));
            }
            if self.matches(&breakpoints[i]) {
                r.push(breakpoints[i].duplicate());
            }
            i = i + 1;
        }
        assert(breakpoints@.take(breakpoints@.len() as int) =~= breakpoints@);
        r
    }

    pub fn matches(&self, breakpoint: &Breakpoint) -> (r: bool)
        ensures
            r == selects(*self, *breakpoint),
    {
        match self {
            BreakpointSelector::Ids(ids) => id_listed(ids, breakpoint.id),
            BreakpointSelector::Location { source, line } => breakpoint.source == *source
                && breakpoint.line == *line,
            BreakpointSelector::Source(source) => breakpoint.source == *source,
            BreakpointSelector::All => true,
        }
    }

    /// How to describe the selection in an error or a table.
    pub fn describe(&self) -> (r: String)
        ensures
            r@ == describe_text(*self),
    {
        match self {
            BreakpointSelector::Ids(ids) => {
                let mut numbers: Vec<u32> = Vec::new();
                let mut i: usize = 0;
                while i < ids.len()
                    invariant
                        i <= ids@.len(),
                        numbers@ == ids@.take(i as int).map_values(|b: BreakpointId| b.0),
                    decreases ids.len() - i,
                {
                    numbers.push(ids[i].0);
                    i = i + 1;
                    assert(numbers@ =~= ids@.take(i as int).map_values(|b: BreakpointId| b.0));
                }
                assert(ids@.take(ids@.len() as int) =~= ids@);
                let mut r = text::owned("id ");
                push_numbers(&mut r, &numbers);
                r
            },
            BreakpointSelector::Location { source, line } => {
                let mut r = source.clone();
                text::push_char(&mut r, ':');
                text::push_decimal(&mut r, *line as u64);
                r
            },
            BreakpointSelector::Source(source) => source.clone(),
            BreakpointSelector::All => text::owned("all breakpoints"),
        }
    }
}

/// Everything `pick` returns was held and is matched by the selector,
/// everything held that the selector matches is returned, and `All` picks
/// every held breakpoint.
pub proof fn law_pick_is_exactly_the_matching_breakpoints(
    selector: BreakpointSelector,
    held: Seq<Breakpoint>,
)
    ensures
        forall|i: int|
            0 <= i < picked(selector, held).len() ==> held.contains(
                #[trigger] picked(selector, held)[i],
            ) && selects(selector, picked(selector, held)[i]),
        forall|b: Breakpoint| #[trigger]
            held.contains(b) && selects(selector, b) ==> picked(selector, held).contains(b),
        selector is All ==> picked(selector, held) == held,
{
    let f = |b: Breakpoint| selects(selector, b);
    crate::seqs::lemma_filter_subset(held, f);
    assert forall|b: Breakpoint| #[trigger] held.contains(b) && selects(selector, b) implies picked(
        selector,
        held,
    ).contains(b) by {
        crate::seqs::lemma_filter_keeps(held, f, b);
    }
    if selector is All {
        crate::seqs::lemma_filter_all(held, f);
    }
}

} // verus!
