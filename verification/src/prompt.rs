//! The prompt pipeline: the closed set of segment kinds, the compositor
//! that stitches rendered segments into one escape-coded line, and the
//! one-shot computation from a context snapshot to the final string.

use vstd::prelude::*;
use vstd::string::StringExecFns;
use crate::colors;
use crate::colors::Color;
use crate::git::GitSegment;
use crate::git::RepoFacts;
use crate::jobs::JobsSegment;
use crate::layout::Line;
use crate::layout::SegmentLayout;
use crate::layout::all_wf;
use crate::layout::greedy_layout_spec;
use crate::layout::layout_sum;
use crate::layout::initial_layout;
use crate::layout::layout_segments;
use crate::layout::prompt_width_spec;
use crate::layout::snapped;
use crate::layout::unconstrained_prompt_width;
use crate::layout::unconstrained_width_spec;
use crate::path::PathSegment;
use crate::path::path_components;
use crate::path::preferred_width_spec;
use crate::path::source_chars_spec;
use crate::path::source_type_spec;
use crate::segments::Context;
use crate::segments::PromptSegment;
use crate::segments::RenderedSegment;
use crate::segments::ShrinkPriority;
use crate::status::StatusSegment;
use crate::status::any_failed_spec;
use crate::status::parse_statuses;
use crate::text::append_decimal;
use crate::text::dec_chars;
use crate::text::grapheme_clusters;

verus! {

/// The directional glyph between and around segments.
pub const SEGMENT_SEPARATOR: char = '\u{e0b0}';

/// The headroom under which a prompt is considered too tight for a single
/// line even when it technically fits.
pub const MIN_WHITESPACE: usize = 40;

/// The closed set of segment kinds a prompt is made of.
pub enum AnySegment {
    Status(StatusSegment),
    Jobs(JobsSegment),
    Path(PathSegment),
    VersionControl(GitSegment),
}

impl PromptSegment for AnySegment {
    open spec fn wf(&self) -> bool {
        match self {
            AnySegment::Status(s) => s.wf(),
            AnySegment::Jobs(s) => s.wf(),
            AnySegment::Path(s) => s.wf(),
            AnySegment::VersionControl(s) => s.wf(),
        }
    }

    open spec fn base_width_spec(&self, shrink: ShrinkPriority) -> nat {
        match self {
            AnySegment::Status(s) => s.base_width_spec(shrink),
            AnySegment::Jobs(s) => s.base_width_spec(shrink),
            AnySegment::Path(s) => s.base_width_spec(shrink),
            AnySegment::VersionControl(s) => s.base_width_spec(shrink),
        }
    }

    open spec fn actual_width_spec(&self, cap: nat) -> nat {
        match self {
            AnySegment::Status(s) => s.actual_width_spec(cap),
            AnySegment::Jobs(s) => s.actual_width_spec(cap),
            AnySegment::Path(s) => s.actual_width_spec(cap),
            AnySegment::VersionControl(s) => s.actual_width_spec(cap),
        }
    }

    open spec fn render_clusters_spec(&self, cap: nat) -> Seq<Seq<char>> {
        match self {
            AnySegment::Status(s) => s.render_clusters_spec(cap),
            AnySegment::Jobs(s) => s.render_clusters_spec(cap),
            AnySegment::Path(s) => s.render_clusters_spec(cap),
            AnySegment::VersionControl(s) => s.render_clusters_spec(cap),
        }
    }

    open spec fn fg_spec(&self) -> Color {
        match self {
            AnySegment::Status(s) => s.fg_spec(),
            AnySegment::Jobs(s) => s.fg_spec(),
            AnySegment::Path(s) => s.fg_spec(),
            AnySegment::VersionControl(s) => s.fg_spec(),
        }
    }

    open spec fn bg_spec(&self) -> Color {
        match self {
            AnySegment::Status(s) => s.bg_spec(),
            AnySegment::Jobs(s) => s.bg_spec(),
            AnySegment::Path(s) => s.bg_spec(),
            AnySegment::VersionControl(s) => s.bg_spec(),
        }
    }

    proof fn lemma_base_width_monotone(&self) {
        match self {
            AnySegment::Status(s) => s.lemma_base_width_monotone(),
            AnySegment::Jobs(s) => s.lemma_base_width_monotone(),
            AnySegment::Path(s) => s.lemma_base_width_monotone(),
            AnySegment::VersionControl(s) => s.lemma_base_width_monotone(),
        }
    }

    proof fn lemma_actual_width_monotone(&self, a: nat, b: nat) {
        match self {
            AnySegment::Status(s) => s.lemma_actual_width_monotone(a, b),
            AnySegment::Jobs(s) => s.lemma_actual_width_monotone(a, b),
            AnySegment::Path(s) => s.lemma_actual_width_monotone(a, b),
            AnySegment::VersionControl(s) => s.lemma_actual_width_monotone(a, b),
        }
    }

    proof fn lemma_actual_width_bounded(&self, cap: nat) {
        match self {
            AnySegment::Status(s) => s.lemma_actual_width_bounded(cap),
            AnySegment::Jobs(s) => s.lemma_actual_width_bounded(cap),
            AnySegment::Path(s) => s.lemma_actual_width_bounded(cap),
            AnySegment::VersionControl(s) => s.lemma_actual_width_bounded(cap),
        }
    }

    proof fn lemma_actual_width_idempotent(&self, cap: nat) {
        match self {
            AnySegment::Status(s) => s.lemma_actual_width_idempotent(cap),
            AnySegment::Jobs(s) => s.lemma_actual_width_idempotent(cap),
            AnySegment::Path(s) => s.lemma_actual_width_idempotent(cap),
            AnySegment::VersionControl(s) => s.lemma_actual_width_idempotent(cap),
        }
    }

    proof fn lemma_unconstrained_width_stable(&self) {
        match self {
            AnySegment::Status(s) => s.lemma_unconstrained_width_stable(),
            AnySegment::Jobs(s) => s.lemma_unconstrained_width_stable(),
            AnySegment::Path(s) => s.lemma_unconstrained_width_stable(),
            AnySegment::VersionControl(s) => s.lemma_unconstrained_width_stable(),
        }
    }

    proof fn lemma_render_width(&self, cap: nat) {
        match self {
            AnySegment::Status(s) => s.lemma_render_width(cap),
            AnySegment::Jobs(s) => s.lemma_render_width(cap),
            AnySegment::Path(s) => s.lemma_render_width(cap),
            AnySegment::VersionControl(s) => s.lemma_render_width(cap),
        }
    }

    fn get_base_width(&self, shrink: ShrinkPriority) -> (r: usize) {
        match self {
            AnySegment::Status(s) => s.get_base_width(shrink),
            AnySegment::Jobs(s) => s.get_base_width(shrink),
            AnySegment::Path(s) => s.get_base_width(shrink),
            AnySegment::VersionControl(s) => s.get_base_width(shrink),
        }
    }

    fn get_actual_width_when_under(&self, max_size: usize) -> (r: usize) {
        match self {
            AnySegment::Status(s) => s.get_actual_width_when_under(max_size),
            AnySegment::Jobs(s) => s.get_actual_width_when_under(max_size),
            AnySegment::Path(s) => s.get_actual_width_when_under(max_size),
            AnySegment::VersionControl(s) => s.get_actual_width_when_under(max_size),
        }
    }

    fn render_at_size(&self, max_size: usize) -> (r: RenderedSegment) {
        match self {
            AnySegment::Status(s) => s.render_at_size(max_size),
            AnySegment::Jobs(s) => s.render_at_size(max_size),
            AnySegment::Path(s) => s.render_at_size(max_size),
            AnySegment::VersionControl(s) => s.render_at_size(max_size),
        }
    }
}

/// The width, in terminal columns, of all the texts a layout renders, plus
/// one separator slot per segment.
pub open spec fn rendered_width_sum<S: PromptSegment>(
    segments: Seq<S>,
    layout: Seq<SegmentLayout>,
) -> nat
    decreases layout.len(),
{
    if layout.len() == 0 {
        0
    } else {
        rendered_width_sum(segments.drop_last(), layout.drop_last()) + segments[layout.len()
            - 1].render_clusters_spec(layout.last().current_size as nat).len() + 1
    }
}

/// The texts a snapped layout renders occupy exactly the allocated widths:
/// their total cluster count equals the sum of the allocated widths.
pub proof fn lemma_rendered_widths_match_layout<S: PromptSegment>(
    segments: Seq<S>,
    layout: Seq<SegmentLayout>,
)
    requires
        all_wf(segments),
        segments.len() == layout.len(),
        snapped(segments, layout),
    ensures
        rendered_width_sum(segments, layout) == layout_sum(layout),
    decreases layout.len(),
{
    if layout.len() > 0 {
        let i = layout.len() - 1;
        segments[i].lemma_render_width(layout[i].current_size as nat);
        assert forall|j: int| 0 <= j < segments.drop_last().len() implies (#[trigger] segments.drop_last()[j]).wf() by {
            assert(segments.drop_last()[j] == segments[j]);
        }
        assert forall|j: int|
            0 <= j < layout.drop_last().len() implies (#[trigger] layout.drop_last()[j]).current_size
            as nat == segments.drop_last()[j].actual_width_spec(
            layout.drop_last()[j].current_size as nat,
        ) by {
            assert(layout.drop_last()[j] == layout[j]);
            assert(segments.drop_last()[j] == segments[j]);
        }
        lemma_rendered_widths_match_layout(segments.drop_last(), layout.drop_last());
    }
}

/// Exact-width rendering, end to end: under a layout that fits the
/// terminal, the rendered texts of all segments, with one separator slot
/// between and around them, stay within the terminal width.
pub proof fn lemma_fitting_prompt_fits<S: PromptSegment>(
    segments: Seq<S>,
    layout: Seq<SegmentLayout>,
    term_width: nat,
)
    requires
        all_wf(segments),
        segments.len() == layout.len(),
        snapped(segments, layout),
        prompt_width_spec(layout) <= term_width,
    ensures
        rendered_width_sum(segments, layout) + 1 <= term_width,
{
    lemma_rendered_widths_match_layout(segments, layout);
}

/// The escape sequence that selects a foreground and a background code.
pub open spec fn color_escape_spec(fg_code: nat, bg_code: nat) -> Seq<char> {
    seq!['\u{1b}', '['] + dec_chars(fg_code) + seq!['m', '\u{1b}', '['] + dec_chars(bg_code)
        + seq!['m']
}

/// The escape sequence that resets all attributes.
pub open spec fn reset_spec() -> Seq<char> {
    seq!['\u{1b}', '[', '0', 'm']
}

/// Appends the escape sequence for drawing in `fg`'s foreground on `bg`'s
/// background.
fn append_color(out: &mut String, fg: &Color, bg: &Color)
    ensures
        final(out)@ == old(out)@ + color_escape_spec(fg.fg as nat, bg.bg as nat),
{
    proof {
        reveal_strlit("\u{1b}[");
        reveal_strlit("m\u{1b}[");
        reveal_strlit("m");
    }
    out.append("\u{1b}[");
    append_decimal(out, fg.fg as usize);
    out.append("m\u{1b}[");
    append_decimal(out, bg.bg as usize);
    out.append("m");
    proof {
        assert(out@ =~= old(out)@ + color_escape_spec(fg.fg as nat, bg.bg as nat));
    }
}

/// One segment's contribution to the line: its text under its color pair,
/// then the separator glyph bridging its background to the next one.
pub open spec fn segment_chunk_spec<S: PromptSegment>(
    segment: S,
    width: nat,
    next_bg: Color,
) -> Seq<char> {
    color_escape_spec(segment.fg_spec().fg as nat, segment.bg_spec().bg as nat)
        + segment.render_clusters_spec(width).flatten() + color_escape_spec(
        segment.bg_spec().fg as nat,
        next_bg.bg as nat,
    ) + seq![SEGMENT_SEPARATOR]
}

/// The chunks of all segments from position `i` on.
pub open spec fn chunks_from_spec<S: PromptSegment>(
    segments: Seq<S>,
    layout: Seq<SegmentLayout>,
    i: int,
) -> Seq<char>
    decreases segments.len() - i,
{
    if i < 0 || i >= segments.len() {
        Seq::empty()
    } else {
        let next_bg = if i + 1 < segments.len() {
            segments[i + 1].bg_spec()
        } else {
            colors::spec_default_color()
        };
        segment_chunk_spec(segments[i], layout[i].current_size as nat, next_bg) + chunks_from_spec(
            segments,
            layout,
            i + 1,
        )
    }
}

/// The continuation marker emitted on the second line of a split prompt.
pub open spec fn split_tail_spec() -> Seq<char> {
    seq!['\n'] + color_escape_spec(
        colors::spec_black().fg as nat,
        colors::spec_blue().bg as nat,
    ) + seq![' ', '\u{21b3}', ' '] + color_escape_spec(
        colors::spec_blue().fg as nat,
        colors::spec_default_color().bg as nat,
    ) + seq![SEGMENT_SEPARATOR] + reset_spec()
        + seq![' ']
}

/// The whole escape-coded prompt for a resolved layout: every segment's
/// chunk and the line ending its classification calls for; a prompt that
/// overflows shows only the separator glyph in default-on-accent colors.
pub open spec fn prompt_text_spec<S: PromptSegment>(
    segments: Seq<S>,
    layout: Seq<SegmentLayout>,
    line: Line,
) -> Seq<char> {
    if line == Line::OverflowLine {
        color_escape_spec(
            colors::spec_default_color().fg as nat,
            colors::spec_blue().bg as nat,
        ) + seq![SEGMENT_SEPARATOR] + reset_spec()
    } else {
        chunks_from_spec(segments, layout, 0) + reset_spec() + (if line == Line::SingleLine {
            seq![' ']
        } else {
            split_tail_spec()
        })
    }
}

/// Walks the resolved layout, renders every segment at its allocated width,
/// and stitches the chunks into the final escape-coded string.
pub fn compose_prompt<S: PromptSegment>(
    segments: &Vec<S>,
    layout: &Vec<SegmentLayout>,
    line: Line,
) -> (out: String)
    requires
        all_wf(segments@),
        segments@.len() == layout@.len(),
    ensures
        out@ == prompt_text_spec(segments@, layout@, line),
{
    proof {
        reveal_strlit("\u{e0b0}");
        reveal_strlit("\u{1b}[0m");
        reveal_strlit(" ");
        reveal_strlit("\n");
        reveal_strlit(" \u{21b3} ");
    }
    if line == Line::OverflowLine {
        let mut out = String::new();
        append_color(&mut out, &colors::default_color(), &colors::blue());
        out.append("\u{e0b0}");
        out.append("\u{1b}[0m");
        proof {
            assert(out@ =~= prompt_text_spec(segments@, layout@, line));
        }
        return out;
    }
    let mut rendered: Vec<RenderedSegment> = Vec::new();
    let mut i: usize = 0;
    while i < segments.len()
        invariant
            all_wf(segments@),
            segments@.len() == layout@.len(),
            i <= segments@.len(),
            rendered@.len() == i,
            forall|j: int|
                0 <= j < i ==> (#[trigger] rendered@[j]).text@
                    == segments@[j].render_clusters_spec(
                    layout@[j].current_size as nat,
                ).flatten() && rendered@[j].fg_color == segments@[j].fg_spec()
                    && rendered@[j].bg_color == segments@[j].bg_spec(),
        decreases segments@.len() - i,
    {
        rendered.push(segments[i].render_at_size(layout[i].current_size));
        i = i + 1;
    }
    let mut out = String::new();
    let mut i: usize = 0;
    while i < rendered.len()
        invariant
            segments@.len() == layout@.len(),
            rendered@.len() == segments@.len(),
            i <= rendered@.len(),
            forall|j: int|
                0 <= j < rendered@.len() ==> (#[trigger] rendered@[j]).text@
                    == segments@[j].render_clusters_spec(
                    layout@[j].current_size as nat,
                ).flatten() && rendered@[j].fg_color == segments@[j].fg_spec()
                    && rendered@[j].bg_color == segments@[j].bg_spec(),
            out@ + chunks_from_spec(segments@, layout@, i as int) == chunks_from_spec(
                segments@,
                layout@,
                0,
            ),
            "\u{e0b0}"@ == seq![SEGMENT_SEPARATOR],
        decreases rendered@.len() - i,
    {
        let ghost out_before = out@;
        let fg = rendered[i].fg_color;
        let bg = rendered[i].bg_color;
        append_color(&mut out, &fg, &bg);
        out.append(rendered[i].text.as_str());
        let next_bg = if i + 1 < rendered.len() {
            rendered[i + 1].bg_color
        } else {
            colors::default_color()
        };
        append_color(&mut out, &bg, &next_bg);
        out.append("\u{e0b0}");
        proof {
            let ghost nb = if i as int + 1 < segments@.len() {
                segments@[i as int + 1].bg_spec()
            } else {
                colors::spec_default_color()
            };
            assert(out@ =~= out_before + segment_chunk_spec(
                segments@[i as int],
                layout@[i as int].current_size as nat,
                nb,
            ));
            assert(out@ + chunks_from_spec(segments@, layout@, i as int + 1)
                =~= out_before + chunks_from_spec(segments@, layout@, i as int));
        }
        i = i + 1;
    }
    proof {
        assert(chunks_from_spec(segments@, layout@, rendered@.len() as int)
            =~= Seq::<char>::empty());
        assert(out@ =~= chunks_from_spec(segments@, layout@, 0));
    }
    out.append("\u{1b}[0m");
    if line == Line::SingleLine {
        out.append(" ");
        proof {
            assert(out@ =~= prompt_text_spec(segments@, layout@, line));
        }
        out
    } else {
        out.append("\n");
        append_color(&mut out, &colors::black(), &colors::blue());
        out.append(" \u{21b3} ");
        append_color(&mut out, &colors::blue(), &colors::default_color());
        out.append("\u{e0b0}");
        out.append("\u{1b}[0m");
        out.append(" ");
        proof {
            assert(out@ =~= prompt_text_spec(segments@, layout@, line));
        }
        out
    }
}

/// The terminal width the layout works against: the column count less three
/// columns of margin, or effectively unbounded when unknown.
pub open spec fn term_width_spec(columns: Option<usize>) -> nat {
    match columns {
        Some(c) => if c > 3 {
            (c - 3) as nat
        } else {
            0
        },
        None => usize::MAX as nat,
    }
}

/// Builds the ordered segment list from a context snapshot and gathered
/// repository facts. A collaborator whose preconditions are not met is
/// simply absent from the list, never an error.
pub fn gather_segments(context: &Context, repo: Option<RepoFacts>) -> (r: Vec<AnySegment>)
    ensures
        all_wf(r@),
        forall|i: int|
            0 <= i < r@.len() ==> ((#[trigger] r@[i]) matches AnySegment::Status(s) ==> (
            context.pipestatus is Some && s.status@ == parse_statuses(context.pipestatus->0@))),
        forall|i: int|
            0 <= i < r@.len() ==> ((#[trigger] r@[i]) matches AnySegment::Jobs(s)
                ==> s.jobs_spec() == context.jobs as nat),
        forall|i: int|
            0 <= i < r@.len() ==> ((#[trigger] r@[i]) matches AnySegment::Path(s) ==> (
            context.path is Some && s.path_type == source_type_spec(*context)
                && s.path_segments@.map_values(|c: String| c@) == path_components(
                source_chars_spec(*context),
            ))),
        forall|i: int|
            0 <= i < r@.len() ==> ((#[trigger] r@[i]) matches AnySegment::VersionControl(s) ==> (
            repo is Some && s.status == repo->0.status && s.mode == repo->0.mode
                && s.branch_name == repo->0.branch_name)),
        (exists|i: int| 0 <= i < r@.len() && (#[trigger] r@[i]) matches AnySegment::Status(_))
            <==> (context.pipestatus is Some && any_failed_spec(context.pipestatus->0@) && 2
            * parse_statuses(context.pipestatus->0@).len() + 1 <= usize::MAX),
        (exists|i: int| 0 <= i < r@.len() && (#[trigger] r@[i]) matches AnySegment::Jobs(_))
            <==> context.jobs != 0,
        (exists|i: int| 0 <= i < r@.len() && (#[trigger] r@[i]) matches AnySegment::Path(_)) <==> (
        context.path is Some && preferred_width_spec(path_components(source_chars_spec(*context)))
            <= usize::MAX),
        (exists|i: int|
            0 <= i < r@.len() && (#[trigger] r@[i]) matches AnySegment::VersionControl(_)) <==> (
        repo is Some && grapheme_clusters(repo->0.branch_name@).len() + 12 <= usize::MAX),
{
    let mut segments: Vec<AnySegment> = Vec::new();
    let st = StatusSegment::new(context);
    let ghost st_some = st is Some;
    match st {
        Some(s) => segments.push(AnySegment::Status(s)),
        None => {},
    }
    let ghost v1 = segments@;
    proof {
        assert(st_some ==> v1.len() == 1 && (v1[0] matches AnySegment::Status(_)));
        assert(forall|i: int|
            0 <= i < v1.len() ==> ((#[trigger] v1[i]) matches AnySegment::Status(_)));
    }
    let jb = JobsSegment::new(context);
    let ghost jb_some = jb is Some;
    match jb {
        Some(s) => segments.push(AnySegment::Jobs(s)),
        None => {},
    }
    let ghost v2 = segments@;
    proof {
        assert(jb_some ==> (v2[v2.len() - 1] matches AnySegment::Jobs(_)));
        assert(forall|i: int|
            0 <= i < v2.len() ==> (((#[trigger] v2[i]) matches AnySegment::Jobs(_)) ==> jb_some));
        assert(forall|i: int|
            0 <= i < v2.len() ==> (((#[trigger] v2[i]) matches AnySegment::Status(_))
                ==> st_some));
    }
    let pt = PathSegment::new(context);
    let ghost pt_some = pt is Some;
    match pt {
        Some(s) => segments.push(AnySegment::Path(s)),
        None => {},
    }
    let ghost v3 = segments@;
    proof {
        assert(pt_some ==> (v3[v3.len() - 1] matches AnySegment::Path(_)));
        assert(forall|i: int|
            0 <= i < v3.len() ==> (((#[trigger] v3[i]) matches AnySegment::Path(_)) ==> pt_some));
        assert(forall|i: int|
            0 <= i < v3.len() ==> (((#[trigger] v3[i]) matches AnySegment::Jobs(_)) ==> jb_some));
        assert(forall|i: int|
            0 <= i < v3.len() ==> (((#[trigger] v3[i]) matches AnySegment::Status(_))
                ==> st_some));
    }
    let ghost git_wanted = repo is Some && grapheme_clusters(repo->0.branch_name@).len() + 12
        <= usize::MAX;
    match repo {
        Some(facts) => {
            match GitSegment::from_parts(facts.status, facts.mode, facts.branch_name) {
                Some(s) => segments.push(AnySegment::VersionControl(s)),
                None => {},
            }
        },
        None => {},
    }
    proof {
        let v4 = segments@;
        assert(git_wanted ==> (v4[v4.len() - 1] matches AnySegment::VersionControl(_)));
        assert(forall|i: int|
            0 <= i < v4.len() ==> (((#[trigger] v4[i]) matches AnySegment::VersionControl(_))
                ==> git_wanted));
        assert(forall|i: int|
            0 <= i < v4.len() ==> (((#[trigger] v4[i]) matches AnySegment::Path(_)) ==> pt_some));
        assert(forall|i: int|
            0 <= i < v4.len() ==> (((#[trigger] v4[i]) matches AnySegment::Jobs(_)) ==> jb_some));
        assert(forall|i: int|
            0 <= i < v4.len() ==> (((#[trigger] v4[i]) matches AnySegment::Status(_))
                ==> st_some));
        assert(st_some ==> (v4[0] matches AnySegment::Status(_)));
        assert(jb_some ==> (v2[v2.len() - 1] matches AnySegment::Jobs(_)) && v4[v2.len() - 1]
            == v2[v2.len() - 1]);
        assert(pt_some ==> (v3[v3.len() - 1] matches AnySegment::Path(_)) && v4[v3.len() - 1]
            == v3[v3.len() - 1]);
    }
    segments
}

/// The one-shot prompt computation: resolves the layout for the terminal
/// width and composes the final escape-coded string.
pub fn render_prompt<S: PromptSegment>(segments: &Vec<S>, columns: Option<usize>) -> (r: (
    Line,
    Vec<SegmentLayout>,
    String,
))
    requires
        all_wf(segments@),
    ensures
        r.1@.len() == segments@.len(),
        snapped(segments@, r.1@),
        forall|i: int|
            0 <= i < r.1@.len() ==> (#[trigger] r.1@[i]).current_size as nat
                <= segments@[i].base_width_spec(ShrinkPriority::Unconstrained),
        (r.0 == Line::SingleLine) <==> (term_width_spec(columns) > unconstrained_width_spec(
            segments@,
        ) + MIN_WHITESPACE),
        (r.0 == Line::SingleLine || r.0 == Line::SplitLine) ==> prompt_width_spec(r.1@)
            <= term_width_spec(columns),
        (r.0 == Line::OverflowLine) <==> prompt_width_spec(r.1@) > term_width_spec(columns),
        (r.0 != Line::SingleLine && unconstrained_width_spec(segments@) <= usize::MAX)
            ==> r.1@ == greedy_layout_spec(segments@, term_width_spec(columns)),
        r.2@ == prompt_text_spec(segments@, r.1@, r.0),
{
    let term_width = match columns {
        Some(c) => if c > 3 {
            c - 3
        } else {
            0
        },
        None => usize::MAX,
    };
    match unconstrained_prompt_width(segments) {
        Some(_) => {
            let (line, layout) = layout_segments(segments, term_width, MIN_WHITESPACE);
            let out = compose_prompt(segments, &layout, line);
            (line, layout, out)
        },
        None => {
            let layout = initial_layout(segments);
            let out = compose_prompt(segments, &layout, Line::OverflowLine);
            (Line::OverflowLine, layout, out)
        },
    }
}

} // verus!
