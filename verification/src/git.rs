//! The version-control segment: branch name, working-tree state symbols and
//! the repository's operation in progress.
//!
//! How those facts are discovered is a collaborator's business; this segment
//! is built from the facts alone and only lays them out.

use vstd::prelude::*;
use vstd::seq_lib::lemma_flatten_concat;
use vstd::string::StringExecFns;
use crate::colors;
use crate::colors::Color;
use crate::segments::PromptSegment;
use crate::segments::RenderedSegment;
use crate::segments::ShrinkPriority;
use crate::text::char_clusters;
use crate::text::grapheme_clusters;
use crate::text::grapheme_count;
use crate::text::lemma_char_clusters_flatten;
use crate::text::split_graphemes;

verus! {

/// What kinds of pending changes the working tree holds.
pub struct FileChanges {
    pub staged: bool,
    pub unstaged: bool,
    pub conflicted: bool,
}

/// The working tree's state: clean, only untracked files, or changes.
pub enum GitStatus {
    Clean,
    UntrackedFiles,
    Changes(FileChanges),
}

/// The repository operation in progress, if any.
pub enum GitState {
    Clean,
    Bisect,
    Rebase,
    Merge,
    Cherrypick,
}

pub open spec fn min_nat(a: nat, b: nat) -> nat {
    if a < b {
        a
    } else {
        b
    }
}

pub open spec fn status_symbol_count(status: GitStatus) -> nat {
    match status {
        GitStatus::Clean => 0,
        GitStatus::UntrackedFiles => 0,
        GitStatus::Changes(fc) => (if fc.staged {
            1nat
        } else {
            0nat
        }) + (if fc.unstaged {
            1nat
        } else {
            0nat
        }) + (if fc.conflicted {
            1nat
        } else {
            0nat
        }),
    }
}

pub open spec fn mode_symbol_len(mode: GitState) -> nat {
    match mode {
        GitState::Clean => 0,
        GitState::Bisect => 3,
        GitState::Rebase => 3,
        GitState::Merge => 3,
        GitState::Cherrypick => 3,
    }
}

/// The width of the status block: the change symbols and the mode marker,
/// with a space between them when both appear.
pub open spec fn status_size_len_spec(status: GitStatus, mode: GitState) -> nat {
    let x = status_symbol_count(status);
    let y = mode_symbol_len(mode);
    if x == 0 && y == 0 {
        0
    } else if y == 0 {
        x
    } else if x == 0 {
        y
    } else {
        x + y + 1
    }
}

pub fn calculate_status_size_len(status: &GitStatus, mode: &GitState) -> (r: usize)
    ensures
        r as nat == status_size_len_spec(*status, *mode),
{
    let status_symbol_len: usize = match status {
        GitStatus::Clean => 0,
        GitStatus::UntrackedFiles => 0,
        GitStatus::Changes(fc) => {
            let mut n: usize = 0;
            if fc.staged {
                n = n + 1;
            }
            if fc.unstaged {
                n = n + 1;
            }
            if fc.conflicted {
                n = n + 1;
            }
            n
        },
    };
    let mode_symbol_len: usize = match mode {
        GitState::Clean => 0,
        GitState::Bisect => 3,
        GitState::Rebase => 3,
        GitState::Merge => 3,
        GitState::Cherrypick => 3,
    };
    match (status_symbol_len, mode_symbol_len) {
        (0, 0) => 0,
        (x, 0) => x,
        (0, y) => y,
        (x, y) => x + y + 1,
    }
}

/// The change symbols, preceded by one space when any appear.
pub open spec fn status_part_spec(status: GitStatus) -> Seq<char> {
    match status {
        GitStatus::Changes(fc) => if fc.staged || fc.unstaged || fc.conflicted {
            seq![' '] + (if fc.unstaged {
                seq!['\u{25cf}']
            } else {
                Seq::empty()
            }) + (if fc.staged {
                seq!['\u{271a}']
            } else {
                Seq::empty()
            }) + (if fc.conflicted {
                seq!['\u{26a0}']
            } else {
                Seq::empty()
            })
        } else {
            Seq::empty()
        },
        _ => Seq::empty(),
    }
}

/// The mode marker, preceded by one space when it appears.
pub open spec fn mode_part_spec(mode: GitState) -> Seq<char> {
    match mode {
        GitState::Clean => Seq::empty(),
        GitState::Bisect => seq![' ', '<', 'B', '>'],
        GitState::Merge => seq![' ', '>', 'M', '<'],
        GitState::Rebase => seq![' ', '>', 'R', '>'],
        GitState::Cherrypick => seq![' ', '>', 'C', '>'],
    }
}

/// Everything the status block renders after the branch name.
pub open spec fn status_symbols_spec(status: GitStatus, mode: GitState) -> Seq<char> {
    status_part_spec(status) + mode_part_spec(mode)
}

/// The room the status block takes in a rendering: nothing when empty, else
/// its width and the space before it.
pub open spec fn status_suffix_len(n: nat) -> nat {
    if n == 0 {
        0
    } else {
        n + 1
    }
}

pub proof fn lemma_status_symbols_len(status: GitStatus, mode: GitState)
    ensures
        status_symbols_spec(status, mode).len() == status_suffix_len(
            status_size_len_spec(status, mode),
        ),
{
}

/// The repository facts a collaborator gathers for the segment: the
/// working-tree status, the operation in progress, and the branch name.
pub struct RepoFacts {
    pub status: GitStatus,
    pub mode: GitState,
    pub branch_name: String,
}

pub struct GitSegment {
    pub status: GitStatus,
    pub mode: GitState,
    pub status_str_len: usize,
    pub branch_name: String,
    pub branch_name_len: usize,
}

impl GitSegment {
    /// The width of the full rendering: padding and branch glyph, the whole
    /// branch name, and the status block.
    pub open spec fn unconstrained_total_spec(&self) -> nat {
        (self.branch_name_len + 4 + status_suffix_len(self.status_str_len as nat)) as nat
    }

    /// The narrowest rendering that still shows some of the branch name,
    /// ellipsized.
    pub open spec fn min_with_branch_spec(&self) -> nat {
        (min_nat(self.branch_name_len as nat, 7) + 4 + status_suffix_len(
            self.status_str_len as nat,
        )) as nat
    }

    /// A git segment is built from already-gathered repository facts; the
    /// cached widths must agree with them, and the branch name must leave
    /// room for the fixed parts of the rendering.
    pub open spec fn wf_spec(&self) -> bool {
        &&& self.status_str_len as nat == status_size_len_spec(self.status, self.mode)
        &&& self.branch_name_len as nat == grapheme_clusters(self.branch_name@).len()
        &&& self.branch_name_len + 12 <= usize::MAX
    }

    /// Builds the segment from gathered repository facts: the working-tree
    /// status, the operation in progress, and the branch name. Absent only
    /// when the branch name is too long for widths to fit a machine word.
    pub fn from_parts(status: GitStatus, mode: GitState, branch_name: String) -> (r: Option<
        GitSegment,
    >)
        ensures
            r is Some <==> grapheme_clusters(branch_name@).len() + 12 <= usize::MAX,
            r is Some ==> r->0.wf() && r->0.status == status && r->0.mode == mode
                && r->0.branch_name == branch_name,
    {
        let branch_name_len = grapheme_count(branch_name.as_str());
        if branch_name_len > usize::MAX - 12 {
            return None;
        }
        let status_str_len = calculate_status_size_len(&status, &mode);
        Some(GitSegment { status, mode, status_str_len, branch_name, branch_name_len })
    }

    pub fn get_unconstrained_total_len(&self) -> (r: usize)
        requires
            self.wf(),
        ensures
            r as nat == self.unconstrained_total_spec(),
    {
        let mut size = self.branch_name_len + 4;
        if self.status_str_len != 0 {
            proof {
                assert(status_size_len_spec(self.status, self.mode) <= 7);
            }
            size = size + self.status_str_len + 1;
        }
        size
    }

    pub fn get_min_len_with_branch_name(&self) -> (r: usize)
        requires
            self.wf(),
        ensures
            r as nat == self.min_with_branch_spec(),
    {
        let capped = if self.branch_name_len < 7 {
            self.branch_name_len
        } else {
            7
        };
        let mut size = capped + 4;
        if self.status_str_len != 0 {
            proof {
                assert(status_size_len_spec(self.status, self.mode) <= 7);
            }
            size = size + self.status_str_len + 1;
        }
        size
    }

    /// Appends the status block: the change symbols, then the mode marker.
    pub fn render_status_symbols(&self, string_builder: &mut String)
        ensures
            final(string_builder)@ == old(string_builder)@ + status_symbols_spec(
                self.status,
                self.mode,
            ),
    {
        proof {
            reveal_strlit(" ");
            reveal_strlit("\u{25cf}");
            reveal_strlit("\u{271a}");
            reveal_strlit("\u{26a0}");
            reveal_strlit(" <B>");
            reveal_strlit(" >M<");
            reveal_strlit(" >R>");
            reveal_strlit(" >C>");
        }
        match &self.status {
            GitStatus::Changes(fc) => {
                if fc.staged || fc.unstaged || fc.conflicted {
                    string_builder.append(" ");
                }
                if fc.unstaged {
                    string_builder.append("\u{25cf}");
                }
                if fc.staged {
                    string_builder.append("\u{271a}");
                }
                if fc.conflicted {
                    string_builder.append("\u{26a0}");
                }
            },
            _ => {},
        }
        match &self.mode {
            GitState::Clean => {},
            GitState::Bisect => string_builder.append(" <B>"),
            GitState::Merge => string_builder.append(" >M<"),
            GitState::Rebase => string_builder.append(" >R>"),
            GitState::Cherrypick => string_builder.append(" >C>"),
        }
        proof {
            assert(string_builder@ =~= old(string_builder)@ + status_symbols_spec(
                self.status,
                self.mode,
            ));
        }
    }

    /// How many branch clusters an ellipsized rendering under `cap` keeps.
    pub open spec fn keep_spec(&self, cap: nat) -> nat {
        if cap >= 7 + status_suffix_len(self.status_str_len as nat) {
            (cap - 7 - status_suffix_len(self.status_str_len as nat)) as nat
        } else {
            0
        }
    }
}

impl PromptSegment for GitSegment {
    open spec fn wf(&self) -> bool {
        self.wf_spec()
    }

    open spec fn base_width_spec(&self, shrink: ShrinkPriority) -> nat {
        match shrink {
            ShrinkPriority::Unconstrained => self.unconstrained_total_spec(),
            ShrinkPriority::ShrinkComfortable => self.min_with_branch_spec(),
            ShrinkPriority::ShrinkBeyondMin => 0,
        }
    }

    open spec fn actual_width_spec(&self, cap: nat) -> nat {
        if cap >= self.min_with_branch_spec() {
            min_nat(cap, self.unconstrained_total_spec())
        } else if self.status_str_len != 0 && cap >= self.status_str_len + 4 {
            (self.status_str_len + 4) as nat
        } else if cap >= 3 {
            3
        } else {
            0
        }
    }

    open spec fn render_clusters_spec(&self, cap: nat) -> Seq<Seq<char>> {
        if cap >= self.min_with_branch_spec() {
            if cap >= self.unconstrained_total_spec() {
                char_clusters(seq![' ', '\u{e0a0}', ' ']) + grapheme_clusters(self.branch_name@)
                    + char_clusters(
                    status_symbols_spec(self.status, self.mode) + seq![' '],
                )
            } else {
                char_clusters(seq![' ', '\u{e0a0}', ' ']) + grapheme_clusters(
                    self.branch_name@,
                ).take(self.keep_spec(cap) as int) + char_clusters(
                    seq!['.', '.', '.'] + status_symbols_spec(self.status, self.mode) + seq![' '],
                )
            }
        } else if self.status_str_len != 0 && cap >= self.status_str_len + 4 {
            char_clusters(
                seq![' ', '\u{e0a0}'] + status_symbols_spec(self.status, self.mode) + seq![' '],
            )
        } else if cap >= 3 {
            char_clusters(seq![' ', '\u{e0a0}', ' '])
        } else {
            Seq::empty()
        }
    }

    open spec fn fg_spec(&self) -> Color {
        colors::spec_black()
    }

    open spec fn bg_spec(&self) -> Color {
        match self.status {
            GitStatus::Clean => colors::spec_green(),
            _ => colors::spec_yellow(),
        }
    }

    proof fn lemma_base_width_monotone(&self) {
    }

    proof fn lemma_actual_width_monotone(&self, a: nat, b: nat) {
    }

    proof fn lemma_actual_width_bounded(&self, cap: nat) {
    }

    proof fn lemma_actual_width_idempotent(&self, cap: nat) {
    }

    proof fn lemma_unconstrained_width_stable(&self) {
    }

    proof fn lemma_render_width(&self, cap: nat) {
        lemma_status_symbols_len(self.status, self.mode);
        if cap >= self.min_with_branch_spec() && cap < self.unconstrained_total_spec() {
            assert(self.branch_name_len > 7);
            assert(self.keep_spec(cap) <= grapheme_clusters(self.branch_name@).len());
        }
    }

    fn get_base_width(&self, shrink: ShrinkPriority) -> (r: usize) {
        match shrink {
            ShrinkPriority::Unconstrained => self.get_unconstrained_total_len(),
            ShrinkPriority::ShrinkComfortable => self.get_min_len_with_branch_name(),
            ShrinkPriority::ShrinkBeyondMin => 0,
        }
    }

    fn get_actual_width_when_under(&self, max_size: usize) -> (r: usize) {
        if max_size >= self.get_min_len_with_branch_name() {
            let unconstrained = self.get_unconstrained_total_len();
            if max_size < unconstrained {
                max_size
            } else {
                unconstrained
            }
        } else if self.status_str_len != 0 && max_size >= self.status_str_len + 4 {
            self.status_str_len + 4
        } else if max_size >= 3 {
            3
        } else {
            0
        }
    }

    fn render_at_size(&self, max_size: usize) -> (r: RenderedSegment) {
        proof {
            reveal_strlit(" ");
            reveal_strlit(" \u{e0a0} ");
            reveal_strlit(" \u{e0a0}");
            reveal_strlit("...");
            lemma_status_symbols_len(self.status, self.mode);
        }
        let min_len = self.get_min_len_with_branch_name();
        let bg = match &self.status {
            GitStatus::Clean => colors::green(),
            _ => colors::yellow(),
        };
        let text: String = if max_size >= min_len {
            let unconstrained = self.get_unconstrained_total_len();
            if max_size >= unconstrained {
                // The split is not consumed here, but its contract is: it
                // ties the branch's cluster sequence to its characters.
                let _parts = split_graphemes(self.branch_name.as_str());
                let mut builder = String::from_str(" \u{e0a0} ");
                builder.append(self.branch_name.as_str());
                self.render_status_symbols(&mut builder);
                builder.append(" ");
                proof {
                    let cl = grapheme_clusters(self.branch_name@);
                    let tail = status_symbols_spec(self.status, self.mode) + seq![' '];
                    lemma_char_clusters_flatten(seq![' ', '\u{e0a0}', ' ']);
                    lemma_char_clusters_flatten(tail);
                    lemma_flatten_concat(
                        char_clusters(seq![' ', '\u{e0a0}', ' ']) + cl,
                        char_clusters(tail),
                    );
                    lemma_flatten_concat(char_clusters(seq![' ', '\u{e0a0}', ' ']), cl);
                    assert(" \u{e0a0} "@ =~= seq![' ', '\u{e0a0}', ' ']);
                    assert(builder@ =~= self.render_clusters_spec(max_size as nat).flatten());
                }
                builder
            } else {
                let suffix = if self.status_str_len == 0 {
                    0
                } else {
                    self.status_str_len + 1
                };
                let keep = if max_size >= 7 + suffix {
                    max_size - 7 - suffix
                } else {
                    0
                };
                let parts = split_graphemes(self.branch_name.as_str());
                let ghost cl = grapheme_clusters(self.branch_name@);
                proof {
                    assert(self.branch_name_len > 7);
                    assert(keep as nat == self.keep_spec(max_size as nat));
                    assert(keep < parts@.len());
                }
                let mut builder = String::from_str(" \u{e0a0} ");
                let mut j: usize = 0;
                proof {
                    assert(" \u{e0a0} "@ =~= seq![' ', '\u{e0a0}', ' ']);
                    assert(cl.take(0) =~= Seq::<Seq<char>>::empty());
                    assert(builder@ =~= seq![' ', '\u{e0a0}', ' '] + cl.take(0).flatten());
                }
                while j < keep
                    invariant
                        j <= keep,
                        keep < parts@.len(),
                        parts@.map_values(|g: String| g@) == cl,
                        builder@ == seq![' ', '\u{e0a0}', ' '] + cl.take(j as int).flatten(),
                    decreases keep - j,
                {
                    builder.append(parts[j].as_str());
                    j = j + 1;
                    proof {
                        assert(parts@[j - 1]@ == cl[j - 1]);
                        assert(cl.take(j as int) =~= cl.take(j as int - 1).push(cl[j - 1]));
                        cl.take(j as int - 1).lemma_flatten_push(cl[j - 1]);
                        assert(builder@ =~= seq![' ', '\u{e0a0}', ' '] + cl.take(j as int).flatten());
                    }
                }
                builder.append("...");
                self.render_status_symbols(&mut builder);
                builder.append(" ");
                proof {
                    let tail = seq!['.', '.', '.'] + status_symbols_spec(self.status, self.mode)
                        + seq![' '];
                    lemma_char_clusters_flatten(seq![' ', '\u{e0a0}', ' ']);
                    lemma_char_clusters_flatten(tail);
                    lemma_flatten_concat(
                        char_clusters(seq![' ', '\u{e0a0}', ' ']) + cl.take(keep as int),
                        char_clusters(tail),
                    );
                    lemma_flatten_concat(
                        char_clusters(seq![' ', '\u{e0a0}', ' ']),
                        cl.take(keep as int),
                    );
                    assert(builder@ =~= self.render_clusters_spec(max_size as nat).flatten());
                }
                builder
            }
        } else if self.status_str_len != 0 && max_size >= self.status_str_len + 4 {
            let mut builder = String::from_str(" \u{e0a0}");
            self.render_status_symbols(&mut builder);
            builder.append(" ");
            proof {
                lemma_char_clusters_flatten(
                    seq![' ', '\u{e0a0}'] + status_symbols_spec(self.status, self.mode)
                        + seq![' '],
                );
                assert(" \u{e0a0}"@ =~= seq![' ', '\u{e0a0}']);
                assert(builder@ =~= self.render_clusters_spec(max_size as nat).flatten());
            }
            builder
        } else if max_size >= 3 {
            proof {
                lemma_char_clusters_flatten(seq![' ', '\u{e0a0}', ' ']);
                assert(" \u{e0a0} "@ =~= seq![' ', '\u{e0a0}', ' ']);
            }
            String::from_str(" \u{e0a0} ")
        } else {
            String::new()
        };
        RenderedSegment { text, fg_color: colors::black(), bg_color: bg }
    }
}

} // verus!
