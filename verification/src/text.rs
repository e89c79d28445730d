//! Text measurement: grapheme clusters and decimal rendering.
//!
//! All widths in this crate are counted in grapheme clusters, the unit a
//! terminal aligns by. Splitting a string into clusters is the job of the
//! `unicode_segmentation` crate; everything else here is verified.

use vstd::prelude::*;
use vstd::string::StringExecFns;
use unicode_segmentation::UnicodeSegmentation;

verus! {

/// The grapheme clusters of a string, in order: a name for what
/// `unicode_segmentation`'s extended grapheme-cluster iterator yields.
pub uninterp spec fn grapheme_clusters(s: Seq<char>) -> Seq<Seq<char>>;

/// Relies on `unicode_segmentation::UnicodeSegmentation::graphemes`, the
/// extended grapheme-cluster iterator of UAX #29: the clusters are nonempty
/// substrings that partition the input, so concatenating them restores it.
#[verifier::external_body]
pub fn split_graphemes(s: &str) -> (r: Vec<String>)
    ensures
        r@.map_values(|g: String| g@) == grapheme_clusters(s@),
        r@.map_values(|g: String| g@).flatten() == s@,
        forall|i: int| 0 <= i < r@.len() ==> (#[trigger] r@[i])@.len() > 0,
{
    s.graphemes(true).map(|g: &str| g.to_string()).collect()
}

/// The number of grapheme clusters in `s`.
pub fn grapheme_count(s: &str) -> (n: usize)
    ensures
        n as nat == grapheme_clusters(s@).len(),
{
    let parts = split_graphemes(s);
    assert(parts@.map_values(|g: String| g@).len() == parts@.len());
    parts.len()
}

/// One singleton cluster per character: the cluster decomposition of text
/// whose characters do not combine, such as the ASCII and symbol literals
/// this crate renders around segment content.
pub open spec fn char_clusters(s: Seq<char>) -> Seq<Seq<char>> {
    Seq::new(s.len(), |i: int| seq![s[i]])
}

pub proof fn lemma_char_clusters_flatten(s: Seq<char>)
    ensures
        char_clusters(s).flatten() == s,
    decreases s.len(),
{
    if s.len() == 0 {
        assert(char_clusters(s) =~= Seq::<Seq<char>>::empty());
        assert(char_clusters(s).flatten() =~= s);
    } else {
        lemma_char_clusters_flatten(s.drop_first());
        assert(char_clusters(s).drop_first() =~= char_clusters(s.drop_first()));
        assert(char_clusters(s).first() == seq![s[0]]);
        assert(char_clusters(s).flatten() =~= s);
    }
}

/// The decimal digit character for `d`, which must be below ten.
pub open spec fn dec_digit_char(d: nat) -> char {
    if d == 0 {
        '0'
    } else if d == 1 {
        '1'
    } else if d == 2 {
        '2'
    } else if d == 3 {
        '3'
    } else if d == 4 {
        '4'
    } else if d == 5 {
        '5'
    } else if d == 6 {
        '6'
    } else if d == 7 {
        '7'
    } else if d == 8 {
        '8'
    } else {
        '9'
    }
}

/// The decimal representation of `n`, most significant digit first.
pub open spec fn dec_chars(n: nat) -> Seq<char>
    decreases n,
{
    if n < 10 {
        seq![dec_digit_char(n)]
    } else {
        dec_chars(n / 10).push(dec_digit_char(n % 10))
    }
}

pub proof fn lemma_dec_chars_len(n: nat)
    ensures
        1 <= dec_chars(n).len() <= n + 1,
    decreases n,
{
    if n >= 10 {
        lemma_dec_chars_len(n / 10);
    }
}

pub open spec fn pow10(k: nat) -> nat
    decreases k,
{
    if k == 0 {
        1
    } else {
        10 * pow10((k - 1) as nat)
    }
}

proof fn lemma_dec_chars_len_below_pow10(n: nat, k: nat)
    requires
        1 <= k,
        n < pow10(k),
    ensures
        dec_chars(n).len() <= k,
    decreases n,
{
    if n >= 10 {
        assert(pow10(k) == 10 * pow10((k - 1) as nat));
        lemma_dec_chars_len_below_pow10(n / 10, (k - 1) as nat);
    }
}

/// Any machine-word count has at most twenty decimal digits.
pub proof fn lemma_dec_chars_len_word(n: nat)
    requires
        n <= usize::MAX,
    ensures
        dec_chars(n).len() <= 20,
{
    reveal_with_fuel(pow10, 21);
    assert(n < pow10(20));
    lemma_dec_chars_len_below_pow10(n, 20);
}

fn append_digit(out: &mut String, d: usize)
    requires
        d < 10,
    ensures
        final(out)@ == old(out)@ + seq![dec_digit_char(d as nat)],
{
    if d == 0 {
        proof { reveal_strlit("0"); }
        out.append("0");
    } else if d == 1 {
        proof { reveal_strlit("1"); }
        out.append("1");
    } else if d == 2 {
        proof { reveal_strlit("2"); }
        out.append("2");
    } else if d == 3 {
        proof { reveal_strlit("3"); }
        out.append("3");
    } else if d == 4 {
        proof { reveal_strlit("4"); }
        out.append("4");
    } else if d == 5 {
        proof { reveal_strlit("5"); }
        out.append("5");
    } else if d == 6 {
        proof { reveal_strlit("6"); }
        out.append("6");
    } else if d == 7 {
        proof { reveal_strlit("7"); }
        out.append("7");
    } else if d == 8 {
        proof { reveal_strlit("8"); }
        out.append("8");
    } else {
        proof { reveal_strlit("9"); }
        out.append("9");
    }
    proof {
        assert(out@ =~= old(out)@ + seq![dec_digit_char(d as nat)]);
    }
}

/// Appends the decimal representation of `n` to `out`.
pub fn append_decimal(out: &mut String, n: usize)
    ensures
        final(out)@ == old(out)@ + dec_chars(n as nat),
    decreases n,
{
    if n < 10 {
        append_digit(out, n);
    } else {
        append_decimal(out, n / 10);
        append_digit(out, n % 10);
        proof {
            assert(out@ =~= old(out)@ + dec_chars(n as nat));
        }
    }
}

/// The number of decimal digits of `n`.
pub fn decimal_len(n: usize) -> (r: usize)
    ensures
        r as nat == dec_chars(n as nat).len(),
    decreases n,
{
    if n < 10 {
        1
    } else {
        proof {
            lemma_dec_chars_len((n / 10) as nat);
        }
        let rest = decimal_len(n / 10);
        1 + rest
    }
}

} // verus!
