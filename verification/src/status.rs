//! The exit-status segment: one glyph per command of the previous
//! pipeline, a green check mark for success and a red cross for a failure,
//! each symbol carrying its own color escape.

use vstd::prelude::*;
use vstd::string::StrSliceExecFns;
use vstd::string::StringExecFns;
use crate::colors;
use crate::colors::Color;
use crate::segments::Context;
use crate::segments::PromptSegment;
use crate::segments::RenderedSegment;
use crate::segments::ShrinkPriority;
use vstd::seq_lib::lemma_flatten_concat;

verus! {

/// The outcome of one command of a pipeline, read from its exit status.
#[derive(PartialEq, Eq, Structural, Clone, Copy, Debug)]
pub enum ExitStatus {
    Succeeded,
    Failed,
}

/// The ASCII whitespace characters a shell's status string is split on.
pub open spec fn is_ascii_ws(c: char) -> bool {
    c == ' ' || c == '\t' || c == '\n' || c == '\r' || c == '\u{c}'
}

/// The whitespace-separated tokens of `s`, with `cur` the partial token
/// gathered so far.
pub open spec fn split_ws_rec(s: Seq<char>, cur: Seq<char>) -> Seq<Seq<char>>
    decreases s.len(),
{
    if s.len() == 0 {
        if cur.len() == 0 {
            Seq::empty()
        } else {
            seq![cur]
        }
    } else if is_ascii_ws(s[0]) {
        if cur.len() == 0 {
            split_ws_rec(s.drop_first(), Seq::empty())
        } else {
            seq![cur] + split_ws_rec(s.drop_first(), Seq::empty())
        }
    } else {
        split_ws_rec(s.drop_first(), cur.push(s[0]))
    }
}

/// The whitespace-separated tokens of `s`.
pub open spec fn whitespace_tokens(s: Seq<char>) -> Seq<Seq<char>> {
    split_ws_rec(s, Seq::empty())
}

/// A token is a success exactly when it is the single digit zero.
pub open spec fn status_of_token(t: Seq<char>) -> ExitStatus {
    if t == seq!['0'] {
        ExitStatus::Succeeded
    } else {
        ExitStatus::Failed
    }
}

pub open spec fn statuses_of(tokens: Seq<Seq<char>>) -> Seq<ExitStatus> {
    tokens.map_values(|t: Seq<char>| status_of_token(t))
}

/// The outcome of every command named in a pipe-status string.
pub open spec fn parse_statuses(s: Seq<char>) -> Seq<ExitStatus> {
    statuses_of(whitespace_tokens(s))
}

pub open spec fn any_failed_spec(s: Seq<char>) -> bool {
    exists|k: int|
        0 <= k < parse_statuses(s).len() && parse_statuses(s)[k] == ExitStatus::Failed
}

/// Splits a pipe-status string on ASCII whitespace and reads each token:
/// returns the outcomes in order, and whether any command failed.
fn parse_status_string(s: &str) -> (r: (Vec<ExitStatus>, bool))
    ensures
        r.0@ == parse_statuses(s@),
        r.1 == any_failed_spec(s@),
{
    let n = s.unicode_len();
    let mut statuses: Vec<ExitStatus> = Vec::new();
    let mut any_failed = false;
    let mut cur_len: usize = 0;
    let mut cur_is_zero = false;
    let ghost mut cur: Seq<char> = Seq::empty();
    let mut i: usize = 0;
    proof {
        assert(s@.skip(0) =~= s@);
    }
    while i < n
        invariant
            n as nat == s@.len(),
            i <= n,
            cur_len <= i,
            cur_len as nat == cur.len(),
            cur_is_zero == (cur == seq!['0']),
            parse_statuses(s@) == statuses@ + statuses_of(split_ws_rec(s@.skip(i as int), cur)),
            any_failed == (exists|k: int|
                0 <= k < statuses@.len() && statuses@[k] == ExitStatus::Failed),
        decreases n - i,
    {
        let c = s.get_char(i);
        proof {
            assert(s@.skip(i as int).drop_first() =~= s@.skip(i as int + 1));
            assert(s@.skip(i as int)[0] == s@[i as int]);
        }
        if c == ' ' || c == '\t' || c == '\n' || c == '\r' || c == '\u{c}' {
            if cur_len > 0 {
                let st = if cur_is_zero {
                    ExitStatus::Succeeded
                } else {
                    ExitStatus::Failed
                };
                let ghost prev = statuses@;
                if !cur_is_zero {
                    any_failed = true;
                }
                statuses.push(st);
                proof {
                    assert(status_of_token(cur) == st);
                    assert(statuses_of(seq![cur] + split_ws_rec(s@.skip(i as int + 1), Seq::empty()))
                        =~= seq![st] + statuses_of(split_ws_rec(s@.skip(i as int + 1), Seq::empty())));
                    assert(statuses@ =~= prev.push(st));
                    assert(parse_statuses(s@) =~= statuses@ + statuses_of(
                        split_ws_rec(s@.skip(i as int + 1), Seq::empty()),
                    ));
                    if st == ExitStatus::Failed {
                        assert(statuses@[statuses@.len() - 1] == ExitStatus::Failed);
                    } else {
                        assert forall|k: int|
                            0 <= k < statuses@.len() && statuses@[k] == ExitStatus::Failed
                            implies 0 <= k < prev.len() && prev[k] == ExitStatus::Failed by {
                            assert(statuses@[statuses@.len() - 1] == ExitStatus::Succeeded);
                        }
                    }
                }
            }
            proof {
                cur = Seq::empty();
            }
            cur_len = 0;
            cur_is_zero = false;
            proof {
                assert(cur.len() == 0);
                assert(cur != seq!['0']);
            }
        } else {
            cur_is_zero = cur_len == 0 && c == '0';
            cur_len = cur_len + 1;
            proof {
                let ghost prev_cur = cur;
                cur = cur.push(c);
                if cur_is_zero {
                    assert(cur =~= seq!['0']);
                } else if prev_cur.len() == 0 {
                    assert(cur[0] == c && c != '0');
                    assert(cur != seq!['0']);
                } else {
                    assert(cur.len() >= 2);
                    assert(cur != seq!['0']);
                }
                assert(cur_is_zero == (cur == seq!['0']));
            }
        }
        i = i + 1;
    }
    proof {
        assert(s@.skip(n as int) =~= Seq::<char>::empty());
    }
    if cur_len > 0 {
        let st = if cur_is_zero {
            ExitStatus::Succeeded
        } else {
            ExitStatus::Failed
        };
        let ghost prev = statuses@;
        if !cur_is_zero {
            any_failed = true;
        }
        statuses.push(st);
        proof {
            assert(status_of_token(cur) == st);
            assert(statuses_of(seq![cur]) =~= seq![st]);
            assert(parse_statuses(s@) =~= statuses@);
            if st == ExitStatus::Failed {
                assert(statuses@[statuses@.len() - 1] == ExitStatus::Failed);
            } else {
                assert forall|k: int| 0 <= k < statuses@.len() && statuses@[k] == ExitStatus::Failed
                    implies 0 <= k < prev.len() && prev[k] == ExitStatus::Failed by {
                    assert(statuses@[statuses@.len() - 1] == ExitStatus::Succeeded);
                }
            }
        }
    } else {
        proof {
            assert(statuses_of(split_ws_rec(Seq::empty(), cur)) =~= Seq::<ExitStatus>::empty());
            assert(parse_statuses(s@) =~= statuses@);
        }
    }
    (statuses, any_failed)
}

/// The symbol for one outcome, with its color baked in: the escape that
/// selects green (foreground code 32) and a check mark for success, the
/// escape for red (31) and a cross for a failure. The escape characters are
/// zero-width on the terminal, so the whole string occupies one column: it
/// is one cluster entry of the rendering.
pub open spec fn status_symbol_chars(e: ExitStatus) -> Seq<char> {
    if e == ExitStatus::Succeeded {
        seq!['\u{1b}', '[', '3', '2', 'm', '\u{2713}']
    } else {
        seq!['\u{1b}', '[', '3', '1', 'm', '\u{2718}']
    }
}

/// The colored symbol for one outcome: a green check mark for success, a
/// red cross for a failure.
pub fn render_status(status: &ExitStatus) -> (r: &'static str)
    ensures
        r@ == status_symbol_chars(*status),
{
    proof {
        reveal_strlit("\u{1b}[32m\u{2713}");
        reveal_strlit("\u{1b}[31m\u{2718}");
    }
    match status {
        ExitStatus::Succeeded => "\u{1b}[32m\u{2713}",
        ExitStatus::Failed => "\u{1b}[31m\u{2718}",
    }
}

/// The cluster entries of the outcome symbols joined by single spaces: one
/// entry per terminal column.
pub open spec fn interspersed_entries(statuses: Seq<ExitStatus>) -> Seq<Seq<char>>
    decreases statuses.len(),
{
    if statuses.len() == 0 {
        Seq::empty()
    } else if statuses.len() == 1 {
        seq![status_symbol_chars(statuses[0])]
    } else {
        interspersed_entries(statuses.drop_last()) + seq![
            seq![' '],
            status_symbol_chars(statuses.last()),
        ]
    }
}

pub proof fn lemma_interspersed_len(statuses: Seq<ExitStatus>)
    requires
        statuses.len() > 0,
    ensures
        interspersed_entries(statuses).len() == 2 * statuses.len() - 1,
    decreases statuses.len(),
{
    if statuses.len() > 1 {
        lemma_interspersed_len(statuses.drop_last());
    }
}

pub struct StatusSegment {
    pub status: Vec<ExitStatus>,
}

impl StatusSegment {
    /// The width of the full rendering: one column per outcome symbol,
    /// single spaces between them, one space of padding on either side.
    pub open spec fn unconstrained_size_spec(&self) -> nat {
        2 * self.status@.len() + 1
    }

    /// A status segment appears only when some command of the pipeline
    /// failed; an all-zero (or absent) status string is an absence.
    pub fn new(context: &Context) -> (r: Option<StatusSegment>)
        ensures
            r is Some <==> (context.pipestatus is Some && any_failed_spec(
                context.pipestatus->0@,
            ) && 2 * parse_statuses(context.pipestatus->0@).len() + 1 <= usize::MAX),
            r is Some ==> r->0.wf() && r->0.status@ == parse_statuses(context.pipestatus->0@),
    {
        let statuses_str = match &context.pipestatus {
            Some(s) => s,
            None => {
                return None;
            },
        };
        let (status, any_failed) = parse_status_string(statuses_str.as_str());
        if !any_failed {
            return None;
        }
        if status.len() > (usize::MAX - 1) / 2 {
            return None;
        }
        Some(StatusSegment { status })
    }

    pub fn get_unconstrained_size(&self) -> (r: usize)
        requires
            self.wf(),
        ensures
            r as nat == self.unconstrained_size_spec(),
    {
        self.status.len() * 2 + 1
    }

    /// The cluster entries rendered under `cap`: every outcome when
    /// everything fits, the first outcome alone under a tight cap, nothing
    /// below the minimum; one space of padding on either side.
    pub open spec fn entries_spec(&self, cap: nat) -> Seq<Seq<char>> {
        if self.actual_width_spec(cap) == self.unconstrained_size_spec() {
            seq![seq![' ']] + interspersed_entries(self.status@) + seq![seq![' ']]
        } else if self.actual_width_spec(cap) == 3 {
            seq![seq![' '], status_symbol_chars(self.status@[0]), seq![' ']]
        } else {
            Seq::empty()
        }
    }
}

impl PromptSegment for StatusSegment {
    open spec fn wf(&self) -> bool {
        self.status@.len() >= 1 && 2 * self.status@.len() + 1 <= usize::MAX
    }

    open spec fn base_width_spec(&self, shrink: ShrinkPriority) -> nat {
        match shrink {
            ShrinkPriority::Unconstrained => self.unconstrained_size_spec(),
            ShrinkPriority::ShrinkComfortable => 3,
            ShrinkPriority::ShrinkBeyondMin => 0,
        }
    }

    open spec fn actual_width_spec(&self, cap: nat) -> nat {
        if cap >= self.unconstrained_size_spec() {
            self.unconstrained_size_spec()
        } else if cap >= 3 {
            3
        } else {
            0
        }
    }

    open spec fn render_clusters_spec(&self, cap: nat) -> Seq<Seq<char>> {
        self.entries_spec(cap)
    }

    open spec fn fg_spec(&self) -> Color {
        colors::spec_black()
    }

    open spec fn bg_spec(&self) -> Color {
        colors::spec_black()
    }

    proof fn lemma_base_width_monotone(&self) {
    }

    proof fn lemma_actual_width_monotone(&self, a: nat, b: nat) {
    }

    proof fn lemma_actual_width_bounded(&self, cap: nat) {
    }

    proof fn lemma_actual_width_idempotent(&self, cap: nat) {
    }

    proof fn lemma_unconstrained_width_stable(&self) {
    }

    proof fn lemma_render_width(&self, cap: nat) {
        if self.actual_width_spec(cap) == self.unconstrained_size_spec() {
            lemma_interspersed_len(self.status@);
        }
    }

    fn get_base_width(&self, shrink: ShrinkPriority) -> (r: usize) {
        match shrink {
            ShrinkPriority::Unconstrained => self.get_unconstrained_size(),
            ShrinkPriority::ShrinkComfortable => 3,
            ShrinkPriority::ShrinkBeyondMin => 0,
        }
    }

    fn get_actual_width_when_under(&self, max_size: usize) -> (r: usize) {
        let full = self.get_unconstrained_size();
        if max_size >= full {
            full
        } else if max_size >= 3 {
            3
        } else {
            0
        }
    }

    fn render_at_size(&self, max_size: usize) -> (r: RenderedSegment) {
        proof {
            reveal_strlit(" ");
        }
        let actual = self.get_actual_width_when_under(max_size);
        let full = self.get_unconstrained_size();
        let ghost entries = self.entries_spec(max_size as nat);
        let text = if actual == full {
            let mut builder = String::from_str(" ");
            let mut k: usize = 0;
            proof {
                assert(interspersed_entries(self.status@.take(0)) =~= Seq::<Seq<char>>::empty());
                assert(Seq::<Seq<char>>::empty().flatten() =~= Seq::<char>::empty());
                assert(builder@ =~= seq![' '] + interspersed_entries(
                    self.status@.take(0),
                ).flatten());
            }
            while k < self.status.len()
                invariant
                    self.wf(),
                    k <= self.status@.len(),
                    builder@ == seq![' '] + interspersed_entries(
                        self.status@.take(k as int),
                    ).flatten(),
                    " "@ == seq![' '],
                decreases self.status@.len() - k,
            {
                if k > 0 {
                    builder.append(" ");
                }
                builder.append(render_status(&self.status[k]));
                k = k + 1;
                proof {
                    let taken = self.status@.take(k as int);
                    let prev_entries = interspersed_entries(self.status@.take(k as int - 1));
                    let sym = status_symbol_chars(self.status@[k - 1]);
                    assert(taken.drop_last() =~= self.status@.take(k as int - 1));
                    if k == 1 {
                        interspersed_entries(taken).lemma_flatten_one_element();
                        assert(interspersed_entries(taken).first() == sym);
                    } else {
                        assert(interspersed_entries(taken) =~= prev_entries.push(
                            seq![' '],
                        ).push(sym));
                        prev_entries.lemma_flatten_push(seq![' ']);
                        prev_entries.push(seq![' ']).lemma_flatten_push(sym);
                    }
                    assert(builder@ =~= seq![' '] + interspersed_entries(taken).flatten());
                }
            }
            builder.append(" ");
            proof {
                assert(self.status@.take(self.status@.len() as int) =~= self.status@);
                let ie = interspersed_entries(self.status@);
                assert(entries =~= (seq![seq![' ']] + ie).push(seq![' ']));
                seq![seq![' ']].lemma_flatten_one_element();
                lemma_flatten_concat(seq![seq![' ']], ie);
                (seq![seq![' ']] + ie).lemma_flatten_push(seq![' ']);
                assert(builder@ =~= entries.flatten());
            }
            builder
        } else if actual == 3 {
            let mut builder = String::from_str(" ");
            builder.append(render_status(&self.status[0]));
            builder.append(" ");
            proof {
                let sym = status_symbol_chars(self.status@[0]);
                assert(entries =~= Seq::<Seq<char>>::empty().push(seq![' ']).push(sym).push(
                    seq![' '],
                ));
                assert(Seq::<Seq<char>>::empty().flatten() =~= Seq::<char>::empty());
                Seq::<Seq<char>>::empty().lemma_flatten_push(seq![' ']);
                Seq::<Seq<char>>::empty().push(seq![' ']).lemma_flatten_push(sym);
                Seq::<Seq<char>>::empty().push(seq![' ']).push(sym).lemma_flatten_push(seq![' ']);
                assert(builder@ =~= entries.flatten());
            }
            builder
        } else {
            proof {
                assert(entries =~= Seq::<Seq<char>>::empty());
                assert(entries.flatten() =~= Seq::<char>::empty());
            }
            String::new()
        };
        RenderedSegment { text, fg_color: colors::black(), bg_color: colors::black() }
    }
}

} // verus!
