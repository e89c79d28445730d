//! The layout engine: a tiered greedy shrink that fits an ordered list of
//! segments into a terminal of known width.

use vstd::prelude::*;
use crate::segments::PromptSegment;
use crate::segments::ShrinkPriority;

verus! {

/// How the resolved prompt relates to the terminal width: ample room on one
/// line, fits after shrinking (and wraps to a continuation line), or does
/// not fit even at floor widths.
#[derive(PartialEq, Eq, Structural, Clone, Copy, Debug)]
pub enum Line {
    SingleLine,
    SplitLine,
    OverflowLine,
}

/// The width allocated to one segment; the resolved layout is one of these
/// per segment, in segment order.
#[derive(Clone, Copy, Debug)]
pub struct SegmentLayout {
    pub current_size: usize,
}

/// The sum of the allocated widths plus one separator slot per segment.
pub open spec fn layout_sum(widths: Seq<SegmentLayout>) -> nat
    decreases widths.len(),
{
    if widths.len() == 0 {
        0
    } else {
        (layout_sum(widths.drop_last()) + widths.last().current_size + 1) as nat
    }
}

/// The total prompt width: every segment's allocated width, plus a separator
/// slot between and around the segments (one more slot than segments).
pub open spec fn prompt_width_spec(widths: Seq<SegmentLayout>) -> nat {
    layout_sum(widths) + 1
}

/// The sum of the segments' unconstrained widths plus the separator slots:
/// the prompt width before any shrinking.
pub open spec fn unconstrained_sum<S: PromptSegment>(segments: Seq<S>) -> nat
    decreases segments.len(),
{
    if segments.len() == 0 {
        0
    } else {
        (unconstrained_sum(segments.drop_last()) + segments.last().base_width_spec(
            ShrinkPriority::Unconstrained,
        ) + 1) as nat
    }
}

pub open spec fn unconstrained_width_spec<S: PromptSegment>(segments: Seq<S>) -> nat {
    unconstrained_sum(segments) + 1
}

/// How much a segment can give up at a tier: its current width over the
/// width it asks for at that tier.
pub open spec fn slack_spec<S: PromptSegment>(
    segment: S,
    current_size: nat,
    shrink_level: ShrinkPriority,
) -> nat {
    if current_size > segment.base_width_spec(shrink_level) {
        (current_size - segment.base_width_spec(shrink_level)) as nat
    } else {
        0
    }
}

/// Every width in the layout is one the segment would really occupy: the
/// layout only ever holds snapped widths.
pub open spec fn snapped<S: PromptSegment>(segments: Seq<S>, layout: Seq<SegmentLayout>) -> bool {
    forall|i: int|
        0 <= i < layout.len() ==> (#[trigger] layout[i]).current_size as nat
            == segments[i].actual_width_spec(layout[i].current_size as nat)
}

pub open spec fn all_wf<S: PromptSegment>(segments: Seq<S>) -> bool {
    forall|i: int| 0 <= i < segments.len() ==> (#[trigger] segments[i]).wf()
}

proof fn lemma_layout_sum_take_succ(widths: Seq<SegmentLayout>, i: int)
    requires
        0 <= i < widths.len(),
    ensures
        layout_sum(widths.take(i + 1)) == layout_sum(widths.take(i)) + widths[i].current_size + 1,
{
    assert(widths.take(i + 1).drop_last() =~= widths.take(i));
    assert(widths.take(i + 1).last() == widths[i]);
}

proof fn lemma_layout_sum_take_le(widths: Seq<SegmentLayout>, i: int)
    requires
        0 <= i <= widths.len(),
    ensures
        layout_sum(widths.take(i)) <= layout_sum(widths),
    decreases widths.len() - i,
{
    if i == widths.len() {
        assert(widths.take(i) =~= widths);
    } else {
        lemma_layout_sum_take_succ(widths, i);
        lemma_layout_sum_take_le(widths, i + 1);
    }
}

proof fn lemma_layout_sum_update(widths: Seq<SegmentLayout>, i: int, v: SegmentLayout)
    requires
        0 <= i < widths.len(),
    ensures
        layout_sum(widths.update(i, v)) + widths[i].current_size == layout_sum(widths)
            + v.current_size,
    decreases widths.len(),
{
    if i == widths.len() - 1 {
        assert(widths.update(i, v).drop_last() =~= widths.drop_last());
        assert(widths.update(i, v).last() == v);
    } else {
        assert(widths.update(i, v).drop_last() =~= widths.drop_last().update(i, v));
        assert(widths.update(i, v).last() == widths.last());
        lemma_layout_sum_update(widths.drop_last(), i, v);
    }
}

proof fn lemma_sum_of_unconstrained<S: PromptSegment>(segments: Seq<S>, layout: Seq<SegmentLayout>)
    requires
        segments.len() == layout.len(),
        forall|i: int|
            0 <= i < layout.len() ==> (#[trigger] layout[i]).current_size as nat
                == segments[i].base_width_spec(ShrinkPriority::Unconstrained),
    ensures
        layout_sum(layout) == unconstrained_sum(segments),
    decreases segments.len(),
{
    if segments.len() > 0 {
        lemma_sum_of_unconstrained(segments.drop_last(), layout.drop_last());
    }
}

proof fn lemma_unconstrained_take_succ<S: PromptSegment>(segments: Seq<S>, i: int)
    requires
        0 <= i < segments.len(),
    ensures
        unconstrained_sum(segments.take(i + 1)) == unconstrained_sum(segments.take(i))
            + segments[i].base_width_spec(ShrinkPriority::Unconstrained) + 1,
{
    assert(segments.take(i + 1).drop_last() =~= segments.take(i));
    assert(segments.take(i + 1).last() == segments[i]);
}

proof fn lemma_unconstrained_take_le<S: PromptSegment>(segments: Seq<S>, i: int)
    requires
        0 <= i <= segments.len(),
    ensures
        unconstrained_sum(segments.take(i)) <= unconstrained_sum(segments),
    decreases segments.len() - i,
{
    if i == segments.len() {
        assert(segments.take(i) =~= segments);
    } else {
        lemma_unconstrained_take_succ(segments, i);
        lemma_unconstrained_take_le(segments, i + 1);
    }
}

/// The prompt width before any shrinking, or absent when it does not fit a
/// machine word.
pub fn unconstrained_prompt_width<S: PromptSegment>(segments: &Vec<S>) -> (r: Option<usize>)
    requires
        all_wf(segments@),
    ensures
        r is Some <==> unconstrained_width_spec(segments@) <= usize::MAX,
        r is Some ==> r->0 as nat == unconstrained_width_spec(segments@),
{
    let mut total: usize = 1;
    let mut i: usize = 0;
    proof {
        assert(segments@.take(0) =~= Seq::<S>::empty());
    }
    while i < segments.len()
        invariant
            all_wf(segments@),
            i <= segments@.len(),
            total as nat == unconstrained_sum(segments@.take(i as int)) + 1,
        decreases segments@.len() - i,
    {
        let w = segments[i].get_base_width(ShrinkPriority::Unconstrained);
        proof {
            lemma_unconstrained_take_succ(segments@, i as int);
        }
        if w > usize::MAX - 1 || total > usize::MAX - 1 - w {
            proof {
                lemma_unconstrained_take_le(segments@, i as int + 1);
            }
            return None;
        }
        total = total + w + 1;
        i = i + 1;
    }
    proof {
        assert(segments@.take(segments@.len() as int) =~= segments@);
    }
    Some(total)
}

/// Every segment at its unconstrained width: the layout before shrinking.
pub fn initial_layout<S: PromptSegment>(segments: &Vec<S>) -> (r: Vec<SegmentLayout>)
    requires
        all_wf(segments@),
    ensures
        r@.len() == segments@.len(),
        forall|i: int|
            0 <= i < r@.len() ==> (#[trigger] r@[i]).current_size as nat
                == segments@[i].base_width_spec(ShrinkPriority::Unconstrained),
        snapped(segments@, r@),
        layout_sum(r@) == unconstrained_sum(segments@),
{
    let mut layout: Vec<SegmentLayout> = Vec::new();
    let mut i: usize = 0;
    while i < segments.len()
        invariant
            all_wf(segments@),
            i <= segments@.len(),
            layout@.len() == i,
            forall|j: int|
                0 <= j < i ==> (#[trigger] layout@[j]).current_size as nat
                    == segments@[j].base_width_spec(ShrinkPriority::Unconstrained),
        decreases segments@.len() - i,
    {
        let w = segments[i].get_base_width(ShrinkPriority::Unconstrained);
        layout.push(SegmentLayout { current_size: w });
        i = i + 1;
    }
    proof {
        lemma_sum_of_unconstrained(segments@, layout@);
        assert forall|j: int| 0 <= j < layout@.len() implies (#[trigger] layout@[j]).current_size
            as nat == segments@[j].actual_width_spec(layout@[j].current_size as nat) by {
            segments@[j].lemma_unconstrained_width_stable();
        }
    }
    layout
}

/// The total width the layout occupies, separator slots included.
pub fn get_size(layout: &Vec<SegmentLayout>) -> (r: usize)
    requires
        prompt_width_spec(layout@) <= usize::MAX,
    ensures
        r as nat == prompt_width_spec(layout@),
{
    let mut total: usize = 1;
    let mut i: usize = 0;
    while i < layout.len()
        invariant
            i <= layout@.len(),
            total as nat == layout_sum(layout@.take(i as int)) + 1,
            prompt_width_spec(layout@) <= usize::MAX,
        decreases layout@.len() - i,
    {
        proof {
            lemma_layout_sum_take_succ(layout@, i as int);
            lemma_layout_sum_take_le(layout@, i + 1);
        }
        total = total + layout[i].current_size + 1;
        i = i + 1;
    }
    proof {
        assert(layout@.take(layout@.len() as int) =~= layout@);
    }
    total
}

/// How much the segment can give up at the given tier without going below
/// the width it asks for there.
pub fn amount_can_shrink<S: PromptSegment>(
    segment: &S,
    segment_layout: &SegmentLayout,
    shrink_level: ShrinkPriority,
) -> (r: usize)
    requires
        segment.wf(),
    ensures
        r as nat == slack_spec(*segment, segment_layout.current_size as nat, shrink_level),
{
    let base_width = segment.get_base_width(shrink_level);
    if segment_layout.current_size > base_width {
        segment_layout.current_size - base_width
    } else {
        0
    }
}

/// The earliest index in `[i, len)` whose slack at the tier is maximal.
pub open spec fn select_from_spec<S: PromptSegment>(
    segments: Seq<S>,
    layout: Seq<SegmentLayout>,
    shrink_level: ShrinkPriority,
    i: int,
) -> int
    decreases segments.len() - i,
{
    if i >= segments.len() - 1 {
        i
    } else {
        let rest = select_from_spec(segments, layout, shrink_level, i + 1);
        if slack_spec(segments[rest], layout[rest].current_size as nat, shrink_level) > slack_spec(
            segments[i],
            layout[i].current_size as nat,
            shrink_level,
        ) {
            rest
        } else {
            i
        }
    }
}

/// The segment the greedy shrink picks: strictly maximal slack at the tier,
/// ties resolved to the earliest index.
pub open spec fn select_spec<S: PromptSegment>(
    segments: Seq<S>,
    layout: Seq<SegmentLayout>,
    shrink_level: ShrinkPriority,
) -> int {
    select_from_spec(segments, layout, shrink_level, 0)
}

proof fn lemma_select_from_spec_properties<S: PromptSegment>(
    segments: Seq<S>,
    layout: Seq<SegmentLayout>,
    shrink_level: ShrinkPriority,
    i: int,
)
    requires
        segments.len() == layout.len(),
        0 <= i < segments.len(),
    ensures
        i <= select_from_spec(segments, layout, shrink_level, i) < segments.len(),
        forall|j: int|
            i <= j < segments.len() ==> slack_spec(
                #[trigger] segments[j],
                layout[j].current_size as nat,
                shrink_level,
            ) <= slack_spec(
                segments[select_from_spec(segments, layout, shrink_level, i)],
                layout[select_from_spec(segments, layout, shrink_level, i)].current_size as nat,
                shrink_level,
            ),
        forall|j: int|
            i <= j < select_from_spec(segments, layout, shrink_level, i) ==> slack_spec(
                #[trigger] segments[j],
                layout[j].current_size as nat,
                shrink_level,
            ) < slack_spec(
                segments[select_from_spec(segments, layout, shrink_level, i)],
                layout[select_from_spec(segments, layout, shrink_level, i)].current_size as nat,
                shrink_level,
            ),
    decreases segments.len() - i,
{
    if i < segments.len() - 1 {
        lemma_select_from_spec_properties(segments, layout, shrink_level, i + 1);
    }
}

/// One greedy shrink step: the selected segment is asked to give up the
/// smaller of the deficit and its slack, and its width snaps to what it
/// really occupies under that request. Meaningful while the prompt is wider
/// than the terminal.
pub open spec fn shrink_step_spec<S: PromptSegment>(
    segments: Seq<S>,
    layout: Seq<SegmentLayout>,
    term_width: nat,
    shrink_level: ShrinkPriority,
) -> Seq<SegmentLayout> {
    let i = select_spec(segments, layout, shrink_level);
    let deficit = (prompt_width_spec(layout) - term_width) as nat;
    let slack = slack_spec(segments[i], layout[i].current_size as nat, shrink_level);
    let step = if deficit < slack {
        deficit
    } else {
        slack
    };
    let requested = (layout[i].current_size - step) as nat;
    layout.update(
        i,
        SegmentLayout { current_size: segments[i].actual_width_spec(requested) as usize },
    )
}

/// The greedy loop at one tier: steps repeat while the prompt is too wide
/// and the selected segment still has slack. `fuel` bounds the recursion;
/// every real step strictly narrows the prompt, so the initial prompt width
/// is always enough fuel.
pub open spec fn shrink_tier_rec<S: PromptSegment>(
    segments: Seq<S>,
    layout: Seq<SegmentLayout>,
    term_width: nat,
    shrink_level: ShrinkPriority,
    fuel: nat,
) -> Seq<SegmentLayout>
    decreases fuel,
{
    if layout.len() == 0 || fuel == 0 || prompt_width_spec(layout) <= term_width {
        layout
    } else {
        let i = select_spec(segments, layout, shrink_level);
        if slack_spec(segments[i], layout[i].current_size as nat, shrink_level) == 0 {
            layout
        } else {
            shrink_tier_rec(
                segments,
                shrink_step_spec(segments, layout, term_width, shrink_level),
                term_width,
                shrink_level,
                (fuel - 1) as nat,
            )
        }
    }
}

/// What one tier of the greedy shrink leaves of a layout.
pub open spec fn shrink_tier_spec<S: PromptSegment>(
    segments: Seq<S>,
    layout: Seq<SegmentLayout>,
    term_width: nat,
    shrink_level: ShrinkPriority,
) -> Seq<SegmentLayout> {
    shrink_tier_rec(segments, layout, term_width, shrink_level, prompt_width_spec(layout))
}

/// Every segment at its unconstrained width, as a sequence.
pub open spec fn unconstrained_layout_spec<S: PromptSegment>(segments: Seq<S>) -> Seq<
    SegmentLayout,
> {
    Seq::new(
        segments.len(),
        |i: int|
            SegmentLayout {
                current_size: segments[i].base_width_spec(ShrinkPriority::Unconstrained) as usize,
            },
    )
}

/// The resolved widths the greedy shrink determines for a prompt that is
/// not an immediate single line: the comfortable tier run to quiescence,
/// then the beyond-minimum tier.
pub open spec fn greedy_layout_spec<S: PromptSegment>(segments: Seq<S>, term_width: nat) -> Seq<
    SegmentLayout,
> {
    shrink_tier_spec(
        segments,
        shrink_tier_spec(
            segments,
            unconstrained_layout_spec(segments),
            term_width,
            ShrinkPriority::ShrinkComfortable,
        ),
        term_width,
        ShrinkPriority::ShrinkBeyondMin,
    )
}

/// Picks the segment to shrink next: the one with strictly maximal slack at
/// the tier, ties resolved to the earliest segment in declaration order.
pub fn select_shrink_target<S: PromptSegment>(
    segments: &Vec<S>,
    layout: &Vec<SegmentLayout>,
    shrink_level: ShrinkPriority,
) -> (best: usize)
    requires
        all_wf(segments@),
        segments@.len() == layout@.len(),
        segments@.len() > 0,
    ensures
        best < segments@.len(),
        forall|j: int|
            0 <= j < segments@.len() ==> slack_spec(
                #[trigger] segments@[j],
                layout@[j].current_size as nat,
                shrink_level,
            ) <= slack_spec(
                segments@[best as int],
                layout@[best as int].current_size as nat,
                shrink_level,
            ),
        forall|j: int|
            0 <= j < best ==> slack_spec(
                #[trigger] segments@[j],
                layout@[j].current_size as nat,
                shrink_level,
            ) < slack_spec(
                segments@[best as int],
                layout@[best as int].current_size as nat,
                shrink_level,
            ),
        best as int == select_spec(segments@, layout@, shrink_level),
{
    let mut best: usize = 0;
    let mut best_slack: usize = amount_can_shrink(&segments[0], &layout[0], shrink_level);
    let mut j: usize = 1;
    while j < segments.len()
        invariant
            all_wf(segments@),
            segments@.len() == layout@.len(),
            1 <= j <= segments@.len(),
            best < j,
            best_slack as nat == slack_spec(
                segments@[best as int],
                layout@[best as int].current_size as nat,
                shrink_level,
            ),
            forall|k: int|
                0 <= k < j ==> slack_spec(
                    #[trigger] segments@[k],
                    layout@[k].current_size as nat,
                    shrink_level,
                ) <= best_slack as nat,
            forall|k: int|
                0 <= k < best ==> slack_spec(
                    #[trigger] segments@[k],
                    layout@[k].current_size as nat,
                    shrink_level,
                ) < best_slack as nat,
        decreases segments@.len() - j,
    {
        let s = amount_can_shrink(&segments[j], &layout[j], shrink_level);
        if s > best_slack {
            best = j;
            best_slack = s;
        }
        j = j + 1;
    }
    proof {
        lemma_select_from_spec_properties(segments@, layout@, shrink_level, 0);
        let sp = select_spec(segments@, layout@, shrink_level);
        if (best as int) < sp {
            assert(slack_spec(
                segments@[best as int],
                layout@[best as int].current_size as nat,
                shrink_level,
            ) < slack_spec(segments@[sp], layout@[sp].current_size as nat, shrink_level));
        }
        if sp < best as int {
            assert(slack_spec(segments@[sp], layout@[sp].current_size as nat, shrink_level)
                < slack_spec(
                segments@[best as int],
                layout@[best as int].current_size as nat,
                shrink_level,
            ));
        }
        assert(best as int == sp);
    }
    best
}

/// Runs one tier of the greedy shrink: while the prompt is too wide, takes
/// the segment with the most slack at this tier and asks it to give up the
/// deficit, re-reading the width it really snaps to. Stops when the prompt
/// fits or no segment has slack left at this tier.
fn shrink_at_tier<S: PromptSegment>(
    segments: &Vec<S>,
    layout: &mut Vec<SegmentLayout>,
    term_width: usize,
    shrink_level: ShrinkPriority,
)
    requires
        all_wf(segments@),
        segments@.len() == old(layout)@.len(),
        prompt_width_spec(old(layout)@) <= usize::MAX,
        snapped(segments@, old(layout)@),
    ensures
        final(layout)@.len() == old(layout)@.len(),
        snapped(segments@, final(layout)@),
        prompt_width_spec(final(layout)@) <= prompt_width_spec(old(layout)@),
        forall|i: int|
            0 <= i < final(layout)@.len() ==> (#[trigger] final(layout)@[i]).current_size <= old(
                layout,
            )@[i].current_size,
        prompt_width_spec(final(layout)@) <= term_width || (forall|i: int|
            0 <= i < segments@.len() ==> slack_spec(
                #[trigger] segments@[i],
                final(layout)@[i].current_size as nat,
                shrink_level,
            ) == 0),
        final(layout)@ == shrink_tier_spec(
            segments@,
            old(layout)@,
            term_width as nat,
            shrink_level,
        ),
{
    let mut prompt_width = get_size(layout);
    if layout.len() == 0 {
        proof {
            assert(shrink_tier_spec(segments@, old(layout)@, term_width as nat, shrink_level)
                == old(layout)@);
        }
        return;
    }
    let ghost total_fuel = prompt_width_spec(old(layout)@);
    let ghost mut fuel_left: nat = total_fuel;
    let mut stuck = false;
    while prompt_width > term_width && !stuck
        invariant
            all_wf(segments@),
            segments@.len() == layout@.len(),
            layout@.len() > 0,
            prompt_width as nat == prompt_width_spec(layout@),
            prompt_width_spec(layout@) <= prompt_width_spec(old(layout)@),
            snapped(segments@, layout@),
            forall|i: int|
                0 <= i < layout@.len() ==> (#[trigger] layout@[i]).current_size <= old(
                    layout,
                )@[i].current_size,
            stuck ==> (forall|i: int|
                0 <= i < segments@.len() ==> slack_spec(
                    #[trigger] segments@[i],
                    layout@[i].current_size as nat,
                    shrink_level,
                ) == 0),
            fuel_left >= prompt_width_spec(layout@),
            shrink_tier_rec(segments@, old(layout)@, term_width as nat, shrink_level, total_fuel)
                == shrink_tier_rec(segments@, layout@, term_width as nat, shrink_level, fuel_left),
        decreases (if stuck { 0int } else { 1int }), prompt_width_spec(layout@),
    {
        let amount_to_shrink = prompt_width - term_width;
        let to_shrink = select_shrink_target(segments, layout, shrink_level);
        let can_shrink = amount_can_shrink(&segments[to_shrink], &layout[to_shrink], shrink_level);
        if can_shrink == 0 {
            stuck = true;
        } else {
            let step = if amount_to_shrink < can_shrink {
                amount_to_shrink
            } else {
                can_shrink
            };
            let current = layout[to_shrink].current_size;
            let new_requested_size = current - step;
            proof {
                segments@[to_shrink as int].lemma_base_width_monotone();
                segments@[to_shrink as int].lemma_actual_width_bounded(new_requested_size as nat);
                segments@[to_shrink as int].lemma_actual_width_idempotent(
                    new_requested_size as nat,
                );
            }
            let new_actual_size = segments[to_shrink].get_actual_width_when_under(
                new_requested_size,
            );
            let ghost prior = layout@;
            layout[to_shrink] = SegmentLayout { current_size: new_actual_size };
            proof {
                lemma_layout_sum_update(
                    prior,
                    to_shrink as int,
                    SegmentLayout { current_size: new_actual_size },
                );
                assert(layout@ =~= shrink_step_spec(
                    segments@,
                    prior,
                    term_width as nat,
                    shrink_level,
                ));
                assert(shrink_tier_rec(segments@, prior, term_width as nat, shrink_level, fuel_left)
                    == shrink_tier_rec(
                    segments@,
                    layout@,
                    term_width as nat,
                    shrink_level,
                    (fuel_left - 1) as nat,
                ));
                fuel_left = (fuel_left - 1) as nat;
            }
            prompt_width = get_size(layout);
        }
    }
    proof {
        if prompt_width_spec(layout@) > term_width {
            lemma_select_from_spec_properties(segments@, layout@, shrink_level, 0);
        }
        assert(shrink_tier_rec(segments@, layout@, term_width as nat, shrink_level, fuel_left)
            == layout@);
    }
}

/// Resolves the layout: gives every segment its unconstrained width; if that
/// leaves more headroom than `min_whitespace`, the prompt is a single line;
/// otherwise it shrinks greedily through the comfortable tier, then the
/// beyond-minimum tier, and reports whether the prompt now fits.
pub fn layout_segments<S: PromptSegment>(
    segments: &Vec<S>,
    term_width: usize,
    min_whitespace: usize,
) -> (r: (Line, Vec<SegmentLayout>))
    requires
        all_wf(segments@),
        unconstrained_width_spec(segments@) <= usize::MAX,
    ensures
        r.1@.len() == segments@.len(),
        snapped(segments@, r.1@),
        forall|i: int|
            0 <= i < r.1@.len() ==> (#[trigger] r.1@[i]).current_size as nat
                <= segments@[i].base_width_spec(ShrinkPriority::Unconstrained),
        (r.0 == Line::SingleLine) <==> (term_width as nat > unconstrained_width_spec(segments@)
            + min_whitespace as nat),
        r.0 == Line::SingleLine ==> (forall|i: int|
            0 <= i < r.1@.len() ==> (#[trigger] r.1@[i]).current_size as nat
                == segments@[i].base_width_spec(ShrinkPriority::Unconstrained)),
        (r.0 == Line::SingleLine || r.0 == Line::SplitLine) ==> prompt_width_spec(r.1@)
            <= term_width,
        (r.0 == Line::OverflowLine) <==> prompt_width_spec(r.1@) > term_width,
        r.0 == Line::OverflowLine ==> (forall|i: int|
            0 <= i < r.1@.len() ==> (#[trigger] r.1@[i]).current_size as nat
                <= segments@[i].base_width_spec(ShrinkPriority::ShrinkBeyondMin)),
        r.0 != Line::SingleLine ==> r.1@ == greedy_layout_spec(segments@, term_width as nat),
{
    let ghost segs = segments@;
    let mut layout = initial_layout(segments);
    proof {
        assert forall|j: int| 0 <= j < layout@.len() implies #[trigger] layout@[j]
            == unconstrained_layout_spec(segs)[j] by {
            assert(layout@[j].current_size as nat == segs[j].base_width_spec(
                ShrinkPriority::Unconstrained,
            ));
        }
        assert(layout@ =~= unconstrained_layout_spec(segs));
    }
    let prompt_width = get_size(&layout);

    let headroom = if term_width > prompt_width {
        term_width - prompt_width
    } else {
        0
    };
    if headroom > min_whitespace {
        return (Line::SingleLine, layout);
    }
    let ghost initial = layout@;

    shrink_at_tier(segments, &mut layout, term_width, ShrinkPriority::ShrinkComfortable);
    shrink_at_tier(segments, &mut layout, term_width, ShrinkPriority::ShrinkBeyondMin);

    proof {
        assert forall|j: int| 0 <= j < layout@.len() implies (#[trigger] layout@[j]).current_size
            as nat <= segs[j].base_width_spec(ShrinkPriority::Unconstrained) by {
            assert(initial[j].current_size as nat == segs[j].base_width_spec(
                ShrinkPriority::Unconstrained,
            ));
        }
    }
    let final_width = get_size(&layout);
    if final_width > term_width {
        proof {
            assert forall|j: int| 0 <= j < layout@.len() implies (#[trigger] layout@[j]).current_size
                as nat <= segs[j].base_width_spec(ShrinkPriority::ShrinkBeyondMin) by {
                assert(slack_spec(
                    segs[j],
                    layout@[j].current_size as nat,
                    ShrinkPriority::ShrinkBeyondMin,
                ) == 0);
            }
        }
        return (Line::OverflowLine, layout);
    }

    (Line::SplitLine, layout)
}

} // verus!
