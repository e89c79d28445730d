//! The working-directory segment: the path shown relative to the home
//! directory when inside it, its components joined by direction glyphs, and
//! ellipsized from the left when room runs out.

use vstd::prelude::*;
use vstd::seq_lib::lemma_flatten_concat;
use vstd::string::StrSliceExecFns;
use vstd::string::StringExecFns;
use crate::colors;
use crate::colors::Color;
use crate::segments::Context;
use crate::segments::PromptSegment;
use crate::segments::RenderedSegment;
use crate::segments::ShrinkPriority;
use crate::text::char_clusters;
use crate::text::grapheme_clusters;
use crate::text::grapheme_count;
use crate::text::lemma_char_clusters_flatten;
use crate::text::split_graphemes;

verus! {

/// The directional glyph between path components.
pub const PATH_SEPARATOR: char = '\u{e0b1}';

/// The narrowest ellipsized rendering; below this the segment collapses to
/// a single space.
pub const MIN_PATH_SIZE: usize = 6;

/// Whether the shown path is relative to the home directory or to the root.
#[derive(PartialEq, Eq, Structural, Clone, Copy, Debug)]
pub enum PathType {
    RelativeToHome,
    RelativeToRoot,
}

/// `s` without its trailing slashes: a home directory is the same directory
/// whether or not it is written with one, as a component-wise comparison
/// would also find.
pub open spec fn trim_trailing_slashes(s: Seq<char>) -> Seq<char>
    decreases s.len(),
{
    if s.len() > 0 && s.last() == '/' {
        trim_trailing_slashes(s.drop_last())
    } else {
        s
    }
}

/// How the path a prompt shows relates to the working directory and the
/// home directory (compared with its trailing slashes ignored): inside
/// home, the part after home; otherwise the absolute path without its
/// leading slash; a relative path is kept as it is.
pub open spec fn rel_type_spec(cwd: Seq<char>, home: Seq<char>) -> PathType {
    let h = trim_trailing_slashes(home);
    if cwd == h || (h.is_prefix_of(cwd) && cwd[h.len() as int] == '/') {
        PathType::RelativeToHome
    } else {
        PathType::RelativeToRoot
    }
}

pub open spec fn rel_chars_spec(cwd: Seq<char>, home: Seq<char>) -> Seq<char> {
    let h = trim_trailing_slashes(home);
    if cwd == h {
        Seq::empty()
    } else if h.is_prefix_of(cwd) && cwd[h.len() as int] == '/' {
        cwd.skip(h.len() as int + 1)
    } else if cwd.len() > 0 && cwd[0] == '/' {
        cwd.skip(1)
    } else {
        cwd
    }
}

/// Whether `p` is a prefix of `s`, comparing characters.
fn is_char_prefix(s: &str, p: &str) -> (r: bool)
    ensures
        r == p@.is_prefix_of(s@),
{
    let n_s = s.unicode_len();
    let n_p = p.unicode_len();
    if n_p > n_s {
        assert(!p@.is_prefix_of(s@));
        return false;
    }
    let mut i: usize = 0;
    while i < n_p
        invariant
            n_s as nat == s@.len(),
            n_p as nat == p@.len(),
            n_p <= n_s,
            i <= n_p,
            forall|k: int| 0 <= k < i ==> s@[k] == p@[k],
        decreases n_p - i,
    {
        if s.get_char(i) != p.get_char(i) {
            assert(s@.take(n_p as int)[i as int] != p@[i as int]);
            return false;
        }
        i = i + 1;
    }
    proof {
        assert(s@.take(n_p as int) =~= p@);
    }
    true
}

/// Resolves the working directory against the home directory: the part of
/// the path the prompt shows, and which prefix glyph introduces it. A home
/// directory written with trailing slashes names the same directory, so
/// those are ignored, as a component-wise comparison would.
pub fn get_relative_path(cwd: &str, home_raw: &str) -> (r: (PathType, String))
    ensures
        r.0 == rel_type_spec(cwd@, home_raw@),
        r.1@ == rel_chars_spec(cwd@, home_raw@),
{
    let mut h_len = home_raw.unicode_len();
    proof {
        assert(home_raw@.take(h_len as int) =~= home_raw@);
    }
    while h_len > 0 && home_raw.get_char(h_len - 1) == '/'
        invariant
            h_len as nat <= home_raw@.len(),
            trim_trailing_slashes(home_raw@) == trim_trailing_slashes(
                home_raw@.take(h_len as int),
            ),
        decreases h_len,
    {
        proof {
            assert(home_raw@.take(h_len as int).last() == home_raw@[h_len - 1]);
            assert(home_raw@.take(h_len as int).drop_last() =~= home_raw@.take(h_len as int - 1));
        }
        h_len = h_len - 1;
    }
    let home = home_raw.substring_char(0, h_len);
    proof {
        if h_len > 0 {
            assert(home_raw@.take(h_len as int).last() == home_raw@[h_len - 1]);
        }
        assert(trim_trailing_slashes(home_raw@.take(h_len as int)) == home_raw@.take(
            h_len as int,
        ));
        assert(home@ =~= home_raw@.take(h_len as int));
        assert(home@ == trim_trailing_slashes(home_raw@));
    }
    let n_cwd = cwd.unicode_len();
    let n_home = home.unicode_len();
    let prefix = is_char_prefix(cwd, home);
    if prefix && n_cwd == n_home {
        proof {
            assert(cwd@ =~= home@);
        }
        return (PathType::RelativeToHome, String::new());
    }
    proof {
        assert(cwd@ != home@) by {
            if cwd@ == home@ {
                assert(cwd@.len() == home@.len());
            }
        }
    }
    if prefix && cwd.get_char(n_home) == '/' {
        let rest = cwd.substring_char(n_home + 1, n_cwd);
        proof {
            assert(rest@ =~= cwd@.skip(n_home as int + 1));
        }
        return (PathType::RelativeToHome, rest.to_owned());
    }
    if n_cwd > 0 && cwd.get_char(0) == '/' {
        let rest = cwd.substring_char(1, n_cwd);
        proof {
            assert(rest@ =~= cwd@.skip(1));
        }
        return (PathType::RelativeToRoot, rest.to_owned());
    }
    (PathType::RelativeToRoot, cwd.to_owned())
}

/// The slash-separated components of a path, with `cur` the partial
/// component gathered so far; empty components (repeated or trailing
/// slashes) are dropped.
pub open spec fn split_slash_rec(s: Seq<char>, cur: Seq<char>) -> Seq<Seq<char>>
    decreases s.len(),
{
    if s.len() == 0 {
        if cur.len() == 0 {
            Seq::empty()
        } else {
            seq![cur]
        }
    } else if s[0] == '/' {
        if cur.len() == 0 {
            split_slash_rec(s.drop_first(), Seq::empty())
        } else {
            seq![cur] + split_slash_rec(s.drop_first(), Seq::empty())
        }
    } else {
        split_slash_rec(s.drop_first(), cur.push(s[0]))
    }
}

/// The components of a path.
pub open spec fn path_components(s: Seq<char>) -> Seq<Seq<char>> {
    split_slash_rec(s, Seq::empty())
}

/// Splits a path into its slash-separated components.
fn split_components(path: &str) -> (r: Vec<String>)
    ensures
        r@.map_values(|c: String| c@) == path_components(path@),
{
    let n = path.unicode_len();
    let mut components: Vec<String> = Vec::new();
    let mut start: usize = 0;
    let mut i: usize = 0;
    proof {
        assert(path@.skip(0) =~= path@);
        assert(path@.subrange(0, 0) =~= Seq::<char>::empty());
    }
    while i < n
        invariant
            n as nat == path@.len(),
            start <= i <= n,
            path_components(path@) == components@.map_values(|c: String| c@) + split_slash_rec(
                path@.skip(i as int),
                path@.subrange(start as int, i as int),
            ),
        decreases n - i,
    {
        let c = path.get_char(i);
        proof {
            assert(path@.skip(i as int).drop_first() =~= path@.skip(i as int + 1));
            assert(path@.skip(i as int)[0] == path@[i as int]);
        }
        if c == '/' {
            if i > start {
                let piece = path.substring_char(start, i);
                let ghost prev = components@;
                components.push(piece.to_owned());
                proof {
                    let ghost cur = path@.subrange(start as int, i as int);
                    assert(components@.map_values(|c: String| c@) =~= prev.map_values(
                        |c: String| c@,
                    ).push(cur));
                    assert((seq![cur] + split_slash_rec(path@.skip(i as int + 1), Seq::empty()))
                        =~= seq![cur].add(split_slash_rec(path@.skip(i as int + 1), Seq::empty())));
                    assert(prev.map_values(|c: String| c@) + (seq![cur] + split_slash_rec(
                        path@.skip(i as int + 1),
                        Seq::empty(),
                    )) =~= components@.map_values(|c: String| c@) + split_slash_rec(
                        path@.skip(i as int + 1),
                        Seq::empty(),
                    ));
                }
            }
            start = i + 1;
            proof {
                assert(path@.subrange(start as int, start as int) =~= Seq::<char>::empty());
            }
        } else {
            proof {
                assert(path@.subrange(start as int, i as int + 1) =~= path@.subrange(
                    start as int,
                    i as int,
                ).push(path@[i as int]));
            }
        }
        i = i + 1;
    }
    proof {
        assert(path@.skip(n as int) =~= Seq::<char>::empty());
    }
    if i > start {
        let piece = path.substring_char(start, i);
        let ghost prev = components@;
        components.push(piece.to_owned());
        proof {
            let ghost cur = path@.subrange(start as int, i as int);
            assert(components@.map_values(|c: String| c@) =~= prev.map_values(|c: String| c@).push(
                cur,
            ));
            assert(prev.map_values(|c: String| c@) + seq![cur] =~= components@.map_values(
                |c: String| c@,
            ));
        }
    } else {
        proof {
            assert(path_components(path@) =~= components@.map_values(|c: String| c@));
        }
    }
    components
}

/// The grapheme clusters a path rendering joins after its prefix glyph: a
/// three-cluster separator, then the component's clusters, for every
/// component in order.
pub open spec fn path_clusters(components: Seq<Seq<char>>) -> Seq<Seq<char>>
    decreases components.len(),
{
    if components.len() == 0 {
        Seq::empty()
    } else {
        path_clusters(components.drop_last()) + char_clusters(seq![' ', '\u{e0b1}', ' '])
            + grapheme_clusters(components.last())
    }
}

/// The characters those clusters spell.
pub open spec fn path_text(components: Seq<Seq<char>>) -> Seq<char>
    decreases components.len(),
{
    if components.len() == 0 {
        Seq::empty()
    } else {
        path_text(components.drop_last()) + seq![' ', '\u{e0b1}', ' '] + components.last()
    }
}

/// The width of the full rendering: the joined components and separators,
/// plus the padded prefix glyph.
pub open spec fn preferred_width_spec(components: Seq<Seq<char>>) -> nat {
    path_clusters(components).len() + 3
}

proof fn lemma_path_clusters_take_succ(components: Seq<Seq<char>>, i: int)
    requires
        0 <= i < components.len(),
    ensures
        path_clusters(components.take(i + 1)) == path_clusters(components.take(i)) + char_clusters(
            seq![' ', '\u{e0b1}', ' '],
        ) + grapheme_clusters(components[i]),
        path_text(components.take(i + 1)) == path_text(components.take(i)) + seq![
            ' ',
            '\u{e0b1}',
            ' ',
        ] + components[i],
{
    assert(components.take(i + 1).drop_last() =~= components.take(i));
    assert(components.take(i + 1).last() == components[i]);
}

proof fn lemma_path_clusters_take_le(components: Seq<Seq<char>>, i: int)
    requires
        0 <= i <= components.len(),
    ensures
        path_clusters(components.take(i)).len() <= path_clusters(components).len(),
    decreases components.len() - i,
{
    if i == components.len() {
        assert(components.take(i) =~= components);
    } else {
        lemma_path_clusters_take_succ(components, i);
        lemma_path_clusters_take_le(components, i + 1);
    }
}

/// The width of the full rendering, or absent when it does not fit a
/// machine word.
pub fn calculate_preferred_size(components: &Vec<String>) -> (r: Option<usize>)
    ensures
        r is Some <==> preferred_width_spec(components@.map_values(|c: String| c@)) <= usize::MAX,
        r is Some ==> r->0 as nat == preferred_width_spec(components@.map_values(|c: String| c@)),
{
    let ghost comps = components@.map_values(|c: String| c@);
    let mut total: usize = 3;
    let mut i: usize = 0;
    proof {
        assert(comps.take(0) =~= Seq::<Seq<char>>::empty());
    }
    while i < components.len()
        invariant
            comps == components@.map_values(|c: String| c@),
            i <= components@.len(),
            total as nat == path_clusters(comps.take(i as int)).len() + 3,
        decreases components@.len() - i,
    {
        let count = grapheme_count(components[i].as_str());
        proof {
            lemma_path_clusters_take_succ(comps, i as int);
        }
        if count > usize::MAX - 3 || total > usize::MAX - 3 - count {
            proof {
                lemma_path_clusters_take_le(comps, i as int + 1);
            }
            return None;
        }
        total = total + 3 + count;
        i = i + 1;
    }
    proof {
        assert(comps.take(components@.len() as int) =~= comps);
    }
    Some(total)
}

/// The flat cluster list of a path rendering's joined part, one entry per
/// grapheme cluster, together with the fact that it spells `path_text`.
fn path_cluster_vec(components: &Vec<String>) -> (r: Vec<String>)
    ensures
        r@.map_values(|g: String| g@) == path_clusters(components@.map_values(|c: String| c@)),
        r@.map_values(|g: String| g@).flatten() == path_text(
            components@.map_values(|c: String| c@),
        ),
{
    let ghost comps = components@.map_values(|c: String| c@);
    let mut flat: Vec<String> = Vec::new();
    let mut i: usize = 0;
    proof {
        reveal_strlit(" ");
        reveal_strlit("\u{e0b1}");
        assert(comps.take(0) =~= Seq::<Seq<char>>::empty());
        assert(flat@.map_values(|g: String| g@) =~= path_clusters(comps.take(0)));
        assert(flat@.map_values(|g: String| g@).flatten() =~= path_text(comps.take(0)));
    }
    while i < components.len()
        invariant
            comps == components@.map_values(|c: String| c@),
            i <= components@.len(),
            flat@.map_values(|g: String| g@) == path_clusters(comps.take(i as int)),
            flat@.map_values(|g: String| g@).flatten() == path_text(comps.take(i as int)),
            " "@ == seq![' '],
            "\u{e0b1}"@ == seq!['\u{e0b1}'],
        decreases components@.len() - i,
    {
        let ghost before = flat@.map_values(|g: String| g@);
        flat.push(String::from_str(" "));
        flat.push(String::from_str("\u{e0b1}"));
        flat.push(String::from_str(" "));
        proof {
            let ghost with_sep = flat@.map_values(|g: String| g@);
            assert(with_sep =~= before + char_clusters(seq![' ', '\u{e0b1}', ' ']));
            lemma_flatten_concat(before, char_clusters(seq![' ', '\u{e0b1}', ' ']));
            lemma_char_clusters_flatten(seq![' ', '\u{e0b1}', ' ']);
        }
        let parts = split_graphemes(components[i].as_str());
        let ghost sep_done = flat@.map_values(|g: String| g@);
        let ghost cl = grapheme_clusters(comps[i as int]);
        let mut k: usize = 0;
        proof {
            assert(cl.take(0) =~= Seq::<Seq<char>>::empty());
            assert(sep_done + cl.take(0) =~= sep_done);
        }
        while k < parts.len()
            invariant
                k <= parts@.len(),
                parts@.map_values(|g: String| g@) == cl,
                flat@.map_values(|g: String| g@) == sep_done + cl.take(k as int),
            decreases parts@.len() - k,
        {
            let ghost flat_before = flat@;
            flat.push(parts[k].clone());
            k = k + 1;
            proof {
                assert(parts@[k - 1]@ == cl[k - 1]);
                assert(flat@ =~= flat_before.push(parts@[k - 1]));
                assert(flat@.map_values(|g: String| g@) =~= flat_before.map_values(
                    |g: String| g@,
                ).push(parts@[k - 1]@));
                assert(cl.take(k as int) =~= cl.take(k as int - 1).push(cl[k - 1]));
                assert((sep_done + cl.take(k as int - 1)).push(cl[k - 1]) =~= sep_done + cl.take(
                    k as int,
                ));
                assert(flat@.map_values(|g: String| g@) =~= sep_done + cl.take(k as int));
            }
        }
        i = i + 1;
        proof {
            assert(cl.take(parts@.len() as int) =~= cl);
            lemma_path_clusters_take_succ(comps, i as int - 1);
            assert(flat@.map_values(|g: String| g@) =~= path_clusters(comps.take(i as int)));
            lemma_flatten_concat(
                path_clusters(comps.take(i as int - 1)) + char_clusters(
                    seq![' ', '\u{e0b1}', ' '],
                ),
                cl,
            );
            assert(cl.flatten() == comps[i as int - 1]);
            assert(flat@.map_values(|g: String| g@).flatten() =~= path_text(comps.take(i as int)));
        }
    }
    proof {
        assert(comps.take(components@.len() as int) =~= comps);
    }
    flat
}

pub struct PathSegment {
    pub path_segments: Vec<String>,
    pub path_type: PathType,
    pub preferred_width: usize,
}

/// The character part of the path the segment is built from, given a
/// context: the working directory resolved against home when home is known.
pub open spec fn source_chars_spec(context: Context) -> Seq<char> {
    match context.home {
        Some(home) => rel_chars_spec(context.path->0@, home@),
        None => context.path->0@,
    }
}

pub open spec fn source_type_spec(context: Context) -> PathType {
    match context.home {
        Some(home) => rel_type_spec(context.path->0@, home@),
        None => PathType::RelativeToRoot,
    }
}

impl PathSegment {
    pub open spec fn wf_spec(&self) -> bool {
        self.preferred_width as nat == preferred_width_spec(
            self.path_segments@.map_values(|c: String| c@),
        )
    }

    /// The comfortable width: the narrowest ellipsized rendering, or the
    /// whole rendering when it is narrower than that.
    pub open spec fn comfortable_spec(&self) -> nat {
        if self.preferred_width < 6 {
            self.preferred_width as nat
        } else {
            6
        }
    }

    /// Builds the segment from the slash-separated path it shows. Absent
    /// only when the rendering's width would not fit a machine word.
    pub fn new_from_path(path_type: PathType, path: &str) -> (r: Option<PathSegment>)
        ensures
            r is Some <==> preferred_width_spec(path_components(path@)) <= usize::MAX,
            r is Some ==> r->0.wf() && r->0.path_type == path_type
                && r->0.path_segments@.map_values(|c: String| c@) == path_components(path@),
    {
        let path_segments = split_components(path);
        let preferred = calculate_preferred_size(&path_segments);
        match preferred {
            Some(preferred_width) => Some(PathSegment { path_segments, path_type, preferred_width }),
            None => None,
        }
    }

    /// A path segment appears whenever the context knows the working
    /// directory (and, as every segment, its widths fit a machine word).
    pub fn new(context: &Context) -> (r: Option<PathSegment>)
        ensures
            r is Some <==> context.path is Some && preferred_width_spec(
                path_components(source_chars_spec(*context)),
            ) <= usize::MAX,
            r is Some ==> r->0.wf() && r->0.path_type == source_type_spec(*context)
                && r->0.path_segments@.map_values(|c: String| c@) == path_components(
                source_chars_spec(*context),
            ),
    {
        let cwd = match &context.path {
            Some(p) => p,
            None => {
                return None;
            },
        };
        match &context.home {
            Some(home) => {
                let (path_type, rel) = get_relative_path(cwd.as_str(), home.as_str());
                Self::new_from_path(path_type, rel.as_str())
            },
            None => Self::new_from_path(PathType::RelativeToRoot, cwd.as_str()),
        }
    }

    /// The prefix glyph: a tilde inside home, a slash otherwise.
    pub open spec fn prefix_char_spec(&self) -> char {
        match self.path_type {
            PathType::RelativeToHome => '~',
            PathType::RelativeToRoot => '/',
        }
    }
}

impl PromptSegment for PathSegment {
    open spec fn wf(&self) -> bool {
        self.wf_spec()
    }

    open spec fn base_width_spec(&self, shrink: ShrinkPriority) -> nat {
        match shrink {
            ShrinkPriority::Unconstrained => self.preferred_width as nat,
            ShrinkPriority::ShrinkComfortable => self.comfortable_spec(),
            ShrinkPriority::ShrinkBeyondMin => 1,
        }
    }

    open spec fn actual_width_spec(&self, cap: nat) -> nat {
        if cap >= self.preferred_width {
            self.preferred_width as nat
        } else if cap >= 6 {
            cap
        } else {
            1
        }
    }

    open spec fn render_clusters_spec(&self, cap: nat) -> Seq<Seq<char>> {
        let comps = self.path_segments@.map_values(|c: String| c@);
        if cap >= self.preferred_width {
            if self.path_segments@.len() == 0 {
                char_clusters(seq![' ', self.prefix_char_spec(), ' '])
            } else {
                char_clusters(seq![' ', self.prefix_char_spec()]) + path_clusters(comps)
                    + char_clusters(seq![' '])
            }
        } else if cap >= 6 {
            char_clusters(seq![' ', '.', '.', '.']) + path_clusters(comps).skip(
                path_clusters(comps).len() - (cap - 5),
            ) + char_clusters(seq![' '])
        } else {
            char_clusters(seq![' '])
        }
    }

    open spec fn fg_spec(&self) -> Color {
        colors::spec_black()
    }

    open spec fn bg_spec(&self) -> Color {
        colors::spec_blue()
    }

    proof fn lemma_base_width_monotone(&self) {
    }

    proof fn lemma_actual_width_monotone(&self, a: nat, b: nat) {
    }

    proof fn lemma_actual_width_bounded(&self, cap: nat) {
    }

    proof fn lemma_actual_width_idempotent(&self, cap: nat) {
    }

    proof fn lemma_unconstrained_width_stable(&self) {
    }

    proof fn lemma_render_width(&self, cap: nat) {
        let comps = self.path_segments@.map_values(|c: String| c@);
        if cap >= self.preferred_width && self.path_segments@.len() == 0 {
            assert(path_clusters(comps) =~= Seq::<Seq<char>>::empty());
        }
    }

    fn get_base_width(&self, shrink: ShrinkPriority) -> (r: usize) {
        match shrink {
            ShrinkPriority::Unconstrained => self.preferred_width,
            ShrinkPriority::ShrinkComfortable => {
                if self.preferred_width < 6 {
                    self.preferred_width
                } else {
                    6
                }
            },
            ShrinkPriority::ShrinkBeyondMin => 1,
        }
    }

    fn get_actual_width_when_under(&self, max_size: usize) -> (r: usize) {
        if max_size >= self.preferred_width {
            self.preferred_width
        } else if max_size >= 6 {
            max_size
        } else {
            1
        }
    }

    fn render_at_size(&self, max_size: usize) -> (r: RenderedSegment) {
        proof {
            reveal_strlit(" ");
            reveal_strlit(" ~");
            reveal_strlit(" /");
            reveal_strlit(" ~ ");
            reveal_strlit(" / ");
            reveal_strlit(" ...");
        }
        let ghost comps = self.path_segments@.map_values(|c: String| c@);
        let text: String = if max_size >= self.preferred_width {
            if self.path_segments.len() == 0 {
                proof {
                    lemma_char_clusters_flatten(seq![' ', self.prefix_char_spec(), ' ']);
                    assert(" ~ "@ =~= seq![' ', '~', ' ']);
                    assert(" / "@ =~= seq![' ', '/', ' ']);
                }
                match self.path_type {
                    PathType::RelativeToHome => String::from_str(" ~ "),
                    PathType::RelativeToRoot => String::from_str(" / "),
                }
            } else {
                let mut builder = match self.path_type {
                    PathType::RelativeToHome => String::from_str(" ~"),
                    PathType::RelativeToRoot => String::from_str(" /"),
                };
                proof {
                    assert(" ~"@ =~= seq![' ', '~']);
                    assert(" /"@ =~= seq![' ', '/']);
                }
                let flat = path_cluster_vec(&self.path_segments);
                let mut j: usize = 0;
                proof {
                    let cl = path_clusters(comps);
                    assert(cl.take(0) =~= Seq::<Seq<char>>::empty());
                    assert(builder@ =~= seq![' ', self.prefix_char_spec()] + cl.take(0).flatten());
                }
                while j < flat.len()
                    invariant
                        j <= flat@.len(),
                        flat@.map_values(|g: String| g@) == path_clusters(comps),
                        builder@ == seq![' ', self.prefix_char_spec()] + path_clusters(
                            comps,
                        ).take(j as int).flatten(),
                    decreases flat@.len() - j,
                {
                    builder.append(flat[j].as_str());
                    j = j + 1;
                    proof {
                        let cl = path_clusters(comps);
                        assert(flat@[j - 1]@ == cl[j - 1]);
                        assert(cl.take(j as int) =~= cl.take(j as int - 1).push(cl[j - 1]));
                        cl.take(j as int - 1).lemma_flatten_push(cl[j - 1]);
                        assert(builder@ =~= seq![' ', self.prefix_char_spec()] + cl.take(
                            j as int,
                        ).flatten());
                    }
                }
                builder.append(" ");
                proof {
                    let cl = path_clusters(comps);
                    assert(cl.take(flat@.len() as int) =~= cl);
                    lemma_char_clusters_flatten(seq![' ', self.prefix_char_spec()]);
                    lemma_char_clusters_flatten(seq![' ']);
                    lemma_flatten_concat(
                        char_clusters(seq![' ', self.prefix_char_spec()]) + cl,
                        char_clusters(seq![' ']),
                    );
                    lemma_flatten_concat(char_clusters(seq![' ', self.prefix_char_spec()]), cl);
                    assert(builder@ =~= self.render_clusters_spec(max_size as nat).flatten());
                }
                builder
            }
        } else if max_size >= 6 {
            let flat = path_cluster_vec(&self.path_segments);
            let keep = max_size - 5;
            proof {
                assert(flat@.len() == path_clusters(comps).len());
                assert(path_clusters(comps).len() + 3 == self.preferred_width);
            }
            let start = flat.len() - keep;
            let mut builder = String::from_str(" ...");
            let mut j: usize = start;
            proof {
                let cl = path_clusters(comps);
                assert(" ..."@ =~= seq![' ', '.', '.', '.']);
                assert(cl.subrange(start as int, start as int) =~= Seq::<Seq<char>>::empty());
                assert(builder@ =~= seq![' ', '.', '.', '.'] + cl.subrange(
                    start as int,
                    start as int,
                ).flatten());
            }
            while j < flat.len()
                invariant
                    start <= j <= flat@.len(),
                    flat@.map_values(|g: String| g@) == path_clusters(comps),
                    builder@ == seq![' ', '.', '.', '.'] + path_clusters(comps).subrange(
                        start as int,
                        j as int,
                    ).flatten(),
                decreases flat@.len() - j,
            {
                builder.append(flat[j].as_str());
                j = j + 1;
                proof {
                    let cl = path_clusters(comps);
                    assert(flat@[j - 1]@ == cl[j - 1]);
                    assert(cl.subrange(start as int, j as int) =~= cl.subrange(
                        start as int,
                        j as int - 1,
                    ).push(cl[j - 1]));
                    cl.subrange(start as int, j as int - 1).lemma_flatten_push(cl[j - 1]);
                    assert(builder@ =~= seq![' ', '.', '.', '.'] + cl.subrange(
                        start as int,
                        j as int,
                    ).flatten());
                }
            }
            builder.append(" ");
            proof {
                let cl = path_clusters(comps);
                assert(cl.subrange(start as int, flat@.len() as int) =~= cl.skip(
                    cl.len() - (max_size - 5),
                ));
                lemma_char_clusters_flatten(seq![' ', '.', '.', '.']);
                lemma_char_clusters_flatten(seq![' ']);
                lemma_flatten_concat(
                    char_clusters(seq![' ', '.', '.', '.']) + cl.skip(cl.len() - (max_size - 5)),
                    char_clusters(seq![' ']),
                );
                lemma_flatten_concat(
                    char_clusters(seq![' ', '.', '.', '.']),
                    cl.skip(cl.len() - (max_size - 5)),
                );
                assert(builder@ =~= self.render_clusters_spec(max_size as nat).flatten());
            }
            builder
        } else {
            proof {
                lemma_char_clusters_flatten(seq![' ']);
                assert(" "@ =~= seq![' ']);
            }
            String::from_str(" ")
        };
        RenderedSegment { text, fg_color: colors::black(), bg_color: colors::blue() }
    }
}

} // verus!
