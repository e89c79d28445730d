//! The segment contract: what every prompt segment promises the layout
//! engine and the compositor.

use vstd::prelude::*;
use vstd::string::StringExecFns;
use crate::colors::Color;
use crate::colors;
use crate::text::char_clusters;
use crate::text::lemma_char_clusters_flatten;

verus! {

/// The read-only snapshot of run-time facts a prompt is built from: the
/// working directory and home directory when resolvable, the previous
/// pipeline's exit-status string when supplied, and the background-job count.
pub struct Context {
    pub path: Option<String>,
    pub home: Option<String>,
    pub pipestatus: Option<String>,
    pub jobs: usize,
}

/// The severity tiers at which a segment is asked to shrink, mildest first.
#[derive(Clone, Copy, Debug)]
pub enum ShrinkPriority {
    Unconstrained,
    ShrinkComfortable,
    ShrinkBeyondMin,
}

/// A segment rendered at an exact width: display text and its color pair.
pub struct RenderedSegment {
    pub text: String,
    pub bg_color: Color,
    pub fg_color: Color,
}

/// What every segment implements for the layout engine and the compositor.
///
/// Widths are counted in grapheme clusters, the unit a terminal aligns by.
/// `render_clusters_spec` is the cluster decomposition of the text the
/// segment renders under a cap: one entry per terminal column, where an
/// entry holds one visible cluster and may carry zero-width color-escape
/// characters ahead of its glyph (the status segment colors each outcome
/// symbol this way). The sequence's length is the width the text occupies,
/// and the proof obligations below tie that width to `actual_width_spec`,
/// make shrinking monotone, and make snapping to discrete widths
/// idempotent, which is what bounds the layout engine's shrink loop.
pub trait PromptSegment: Sized {
    /// The segment's internal invariant, established by its constructors.
    spec fn wf(&self) -> bool;

    /// The width the segment asks for at a shrink tier.
    spec fn base_width_spec(&self, shrink: ShrinkPriority) -> nat;

    /// The width the segment will really occupy when asked to render at or
    /// under `cap`: segments snap to discrete boundaries rather than occupy
    /// an arbitrary requested width.
    spec fn actual_width_spec(&self, cap: nat) -> nat;

    /// The grapheme clusters of the text rendered under `cap`.
    spec fn render_clusters_spec(&self, cap: nat) -> Seq<Seq<char>>;

    /// The foreground color the segment renders in.
    spec fn fg_spec(&self) -> Color;

    /// The background color the segment renders on.
    spec fn bg_spec(&self) -> Color;

    /// Harsher tiers never ask for more room.
    proof fn lemma_base_width_monotone(&self)
        requires
            self.wf(),
        ensures
            self.base_width_spec(ShrinkPriority::ShrinkComfortable) <= self.base_width_spec(
                ShrinkPriority::Unconstrained,
            ),
            self.base_width_spec(ShrinkPriority::ShrinkBeyondMin) <= self.base_width_spec(
                ShrinkPriority::ShrinkComfortable,
            ),
    ;

    /// The occupied width is monotonic non-decreasing in the cap.
    proof fn lemma_actual_width_monotone(&self, a: nat, b: nat)
        requires
            self.wf(),
            a <= b,
        ensures
            self.actual_width_spec(a) <= self.actual_width_spec(b),
    ;

    /// A cap at or above the segment's floor is respected.
    proof fn lemma_actual_width_bounded(&self, cap: nat)
        requires
            self.wf(),
            self.base_width_spec(ShrinkPriority::ShrinkBeyondMin) <= cap,
        ensures
            self.actual_width_spec(cap) <= cap,
    ;

    /// Snapping to a discrete width is idempotent: rendering at the width
    /// the segment reported reproduces that width.
    proof fn lemma_actual_width_idempotent(&self, cap: nat)
        requires
            self.wf(),
        ensures
            self.actual_width_spec(self.actual_width_spec(cap)) == self.actual_width_spec(cap),
    ;

    /// The unconstrained width is itself a snapped width.
    proof fn lemma_unconstrained_width_stable(&self)
        requires
            self.wf(),
        ensures
            self.actual_width_spec(self.base_width_spec(ShrinkPriority::Unconstrained))
                == self.base_width_spec(ShrinkPriority::Unconstrained),
    ;

    /// The rendered text is exactly as wide, in terminal columns (visible
    /// grapheme clusters, escape characters taking no room), as the width
    /// the segment reports as achievable under the cap.
    proof fn lemma_render_width(&self, cap: nat)
        requires
            self.wf(),
        ensures
            self.render_clusters_spec(cap).len() == self.actual_width_spec(cap),
    ;

    fn get_base_width(&self, shrink: ShrinkPriority) -> (r: usize)
        requires
            self.wf(),
        ensures
            r as nat == self.base_width_spec(shrink),
    ;

    fn get_actual_width_when_under(&self, max_size: usize) -> (r: usize)
        requires
            self.wf(),
        ensures
            r as nat == self.actual_width_spec(max_size as nat),
    ;

    fn render_at_size(&self, max_size: usize) -> (r: RenderedSegment)
        requires
            self.wf(),
        ensures
            r.text@ == self.render_clusters_spec(max_size as nat).flatten(),
            r.fg_color == self.fg_spec(),
            r.bg_color == self.bg_spec(),
    ;
}

/// A run of `n` spaces.
pub open spec fn spaces(n: nat) -> Seq<char> {
    Seq::new(n, |i: int| ' ')
}

/// A segment of plain filler with a fixed preferred width: it renders a run
/// of spaces, takes any cap at or above its comfortable width as granted,
/// and collapses to its floor below that.
pub struct FixedSegment {
    pub width: usize,
    pub comfortable: usize,
    pub floor: usize,
}

impl FixedSegment {
    pub fn new(width: usize, comfortable: usize, floor: usize) -> (r: FixedSegment)
        requires
            floor <= comfortable,
            comfortable <= width,
        ensures
            r.wf(),
            r.width == width,
            r.comfortable == comfortable,
            r.floor == floor,
    {
        FixedSegment { width, comfortable, floor }
    }
}

impl PromptSegment for FixedSegment {
    open spec fn wf(&self) -> bool {
        self.floor <= self.comfortable && self.comfortable <= self.width
    }

    open spec fn base_width_spec(&self, shrink: ShrinkPriority) -> nat {
        match shrink {
            ShrinkPriority::Unconstrained => self.width as nat,
            ShrinkPriority::ShrinkComfortable => self.comfortable as nat,
            ShrinkPriority::ShrinkBeyondMin => self.floor as nat,
        }
    }

    open spec fn actual_width_spec(&self, cap: nat) -> nat {
        if cap >= self.comfortable {
            cap
        } else {
            self.floor as nat
        }
    }

    open spec fn render_clusters_spec(&self, cap: nat) -> Seq<Seq<char>> {
        char_clusters(spaces(self.actual_width_spec(cap)))
    }

    open spec fn fg_spec(&self) -> Color {
        colors::default_color()
    }

    open spec fn bg_spec(&self) -> Color {
        colors::default_color()
    }

    proof fn lemma_base_width_monotone(&self) {
    }

    proof fn lemma_actual_width_monotone(&self, a: nat, b: nat) {
    }

    proof fn lemma_actual_width_bounded(&self, cap: nat) {
    }

    proof fn lemma_actual_width_idempotent(&self, cap: nat) {
    }

    proof fn lemma_unconstrained_width_stable(&self) {
    }

    proof fn lemma_render_width(&self, cap: nat) {
    }

    fn get_base_width(&self, shrink: ShrinkPriority) -> (r: usize) {
        match shrink {
            ShrinkPriority::Unconstrained => self.width,
            ShrinkPriority::ShrinkComfortable => self.comfortable,
            ShrinkPriority::ShrinkBeyondMin => self.floor,
        }
    }

    fn get_actual_width_when_under(&self, max_size: usize) -> (r: usize) {
        if max_size >= self.comfortable {
            max_size
        } else {
            self.floor
        }
    }

    fn render_at_size(&self, max_size: usize) -> (r: RenderedSegment) {
        let n = self.get_actual_width_when_under(max_size);
        let mut text = String::new();
        let mut i: usize = 0;
        proof {
            reveal_strlit(" ");
        }
        while i < n
            invariant
                i <= n,
                text@ == spaces(i as nat),
                " "@ == seq![' '],
            decreases n - i,
        {
            text.append(" ");
            i = i + 1;
            proof {
                assert(text@ =~= spaces(i as nat));
            }
        }
        proof {
            lemma_char_clusters_flatten(spaces(n as nat));
        }
        RenderedSegment { text, fg_color: colors::default_color(), bg_color: colors::default_color() }
    }
}

} // verus!
