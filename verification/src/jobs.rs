//! The background-jobs segment: a gear glyph, preceded by the job count when
//! more than one job is running.

use vstd::prelude::*;
use vstd::string::StringExecFns;
use crate::colors;
use crate::colors::Color;
use crate::segments::Context;
use crate::segments::PromptSegment;
use crate::segments::RenderedSegment;
use crate::segments::ShrinkPriority;
use crate::text::append_decimal;
use crate::text::char_clusters;
use crate::text::dec_chars;
use crate::text::decimal_len;
use crate::text::lemma_char_clusters_flatten;
use crate::text::lemma_dec_chars_len;
use crate::text::lemma_dec_chars_len_word;

verus! {

pub struct JobsSegment {
    jobs: usize,
}

impl JobsSegment {
    /// The background-job count this segment displays.
    pub closed spec fn jobs_spec(&self) -> nat {
        self.jobs as nat
    }

    /// The width of the full rendering for more than one job: the decimal
    /// job count and the gear glyph, with the surrounding padding.
    pub open spec fn unconstrained_size_spec(&self) -> nat {
        dec_chars(self.jobs_spec()).len() + 4
    }

    /// A jobs segment appears only when at least one job is in the
    /// background; a zero count is an absence, not an error.
    pub fn new(context: &Context) -> (r: Option<JobsSegment>)
        ensures
            r is Some <==> context.jobs != 0,
            r is Some ==> r->Some_0.wf() && r->Some_0.jobs_spec() == context.jobs as nat,
    {
        if context.jobs == 0 {
            None
        } else {
            Some(JobsSegment { jobs: context.jobs })
        }
    }

    pub fn get_unconstrained_size(&self) -> (r: usize)
        requires
            self.wf(),
        ensures
            r as nat == self.unconstrained_size_spec(),
    {
        proof {
            lemma_dec_chars_len_word(self.jobs as nat);
        }
        decimal_len(self.jobs) + 4
    }

    /// The characters rendered under `cap`: the gear alone for one job or a
    /// tight cap, count and gear when everything fits, nothing below the
    /// minimum.
    pub open spec fn text_spec(&self, cap: nat) -> Seq<char> {
        if self.actual_width_spec(cap) == self.unconstrained_size_spec() {
            seq![' '] + dec_chars(self.jobs_spec()) + seq![' ', '\u{2699}', ' ']
        } else if self.actual_width_spec(cap) == 3 {
            seq![' ', '\u{2699}', ' ']
        } else {
            Seq::empty()
        }
    }
}

impl PromptSegment for JobsSegment {
    closed spec fn wf(&self) -> bool {
        self.jobs >= 1
    }

    open spec fn base_width_spec(&self, shrink: ShrinkPriority) -> nat {
        match shrink {
            ShrinkPriority::Unconstrained => if self.jobs_spec() == 1 {
                3
            } else {
                self.unconstrained_size_spec()
            },
            ShrinkPriority::ShrinkComfortable => 3,
            ShrinkPriority::ShrinkBeyondMin => 0,
        }
    }

    open spec fn actual_width_spec(&self, cap: nat) -> nat {
        if self.jobs_spec() == 1 {
            if cap >= 3 {
                3
            } else {
                0
            }
        } else {
            if cap >= self.unconstrained_size_spec() {
                self.unconstrained_size_spec()
            } else if cap >= 3 {
                3
            } else {
                0
            }
        }
    }

    open spec fn render_clusters_spec(&self, cap: nat) -> Seq<Seq<char>> {
        char_clusters(self.text_spec(cap))
    }

    open spec fn fg_spec(&self) -> Color {
        colors::spec_yellow()
    }

    open spec fn bg_spec(&self) -> Color {
        colors::spec_black()
    }

    proof fn lemma_base_width_monotone(&self) {
        lemma_dec_chars_len(self.jobs_spec());
    }

    proof fn lemma_actual_width_monotone(&self, a: nat, b: nat) {
        lemma_dec_chars_len(self.jobs_spec());
    }

    proof fn lemma_actual_width_bounded(&self, cap: nat) {
        lemma_dec_chars_len(self.jobs_spec());
    }

    proof fn lemma_actual_width_idempotent(&self, cap: nat) {
        lemma_dec_chars_len(self.jobs_spec());
    }

    proof fn lemma_unconstrained_width_stable(&self) {
        lemma_dec_chars_len(self.jobs_spec());
    }

    proof fn lemma_render_width(&self, cap: nat) {
        lemma_dec_chars_len(self.jobs_spec());
    }

    fn get_base_width(&self, shrink: ShrinkPriority) -> (r: usize) {
        match shrink {
            ShrinkPriority::Unconstrained => {
                if self.jobs == 1 {
                    3
                } else {
                    self.get_unconstrained_size()
                }
            },
            ShrinkPriority::ShrinkComfortable => 3,
            ShrinkPriority::ShrinkBeyondMin => 0,
        }
    }

    fn get_actual_width_when_under(&self, max_size: usize) -> (r: usize) {
        if self.jobs == 1 {
            if max_size >= 3 {
                3
            } else {
                0
            }
        } else {
            let full = self.get_unconstrained_size();
            if max_size >= full {
                full
            } else if max_size >= 3 {
                3
            } else {
                0
            }
        }
    }

    fn render_at_size(&self, max_size: usize) -> (r: RenderedSegment) {
        proof {
            lemma_dec_chars_len(self.jobs_spec());
            lemma_char_clusters_flatten(self.text_spec(max_size as nat));
            reveal_strlit(" ");
            reveal_strlit(" \u{2699} ");
        }
        let actual = self.get_actual_width_when_under(max_size);
        let full = self.get_unconstrained_size();
        let text = if actual == full {
            let mut builder = String::from_str(" ");
            append_decimal(&mut builder, self.jobs);
            builder.append(" \u{2699} ");
            proof {
                assert(builder@ =~= self.text_spec(max_size as nat));
            }
            builder
        } else if actual == 3 {
            String::from_str(" \u{2699} ")
        } else {
            String::new()
        };
        RenderedSegment { text, fg_color: colors::yellow(), bg_color: colors::black() }
    }
}

} // verus!
