//! Verified text helpers: whitespace tokenization, ASCII lowercasing, and
//! joining, as the control-command grammar and the configuration values use
//! them.

use vstd::prelude::*;

verus! {

use vstd::string::StrSliceExecFns;

/// The whitespace characters that separate tokens: the White_Space set, as
/// the standard library's whitespace splitting recognizes it.
pub open spec fn spec_is_space(c: char) -> bool {
    ||| c == ' '
    ||| c == '\t'
    ||| c == '\n'
    ||| c == '\u{b}'
    ||| c == '\u{c}'
    ||| c == '\r'
    ||| c == '\u{85}'
    ||| c == '\u{a0}'
    ||| c == '\u{1680}'
    ||| c == '\u{2000}'
    ||| c == '\u{2001}'
    ||| c == '\u{2002}'
    ||| c == '\u{2003}'
    ||| c == '\u{2004}'
    ||| c == '\u{2005}'
    ||| c == '\u{2006}'
    ||| c == '\u{2007}'
    ||| c == '\u{2008}'
    ||| c == '\u{2009}'
    ||| c == '\u{200a}'
    ||| c == '\u{2028}'
    ||| c == '\u{2029}'
    ||| c == '\u{202f}'
    ||| c == '\u{205f}'
    ||| c == '\u{3000}'
}

/// Exec mirror of [`spec_is_space`].
pub fn is_space(c: char) -> (r: bool)
    ensures
        r == spec_is_space(c),
{
    c == ' ' || c == '\t' || c == '\n' || c == '\u{b}' || c == '\u{c}' || c == '\r'
        || c == '\u{85}' || c == '\u{a0}' || c == '\u{1680}' || c == '\u{2000}'
        || c == '\u{2001}' || c == '\u{2002}' || c == '\u{2003}' || c == '\u{2004}'
        || c == '\u{2005}' || c == '\u{2006}' || c == '\u{2007}' || c == '\u{2008}'
        || c == '\u{2009}' || c == '\u{200a}' || c == '\u{2028}' || c == '\u{2029}'
        || c == '\u{202f}' || c == '\u{205f}' || c == '\u{3000}'
}

/// The lower-case counterpart of an ASCII letter; any other character is
/// itself. The folding is deliberately ASCII: it serves only to match the
/// command words of the control grammar, which are ASCII.
pub open spec fn spec_lower_char(c: char) -> char {
    if c == 'A' { 'a' } else if c == 'B' { 'b' } else if c == 'C' { 'c' }
    else if c == 'D' { 'd' } else if c == 'E' { 'e' } else if c == 'F' { 'f' }
    else if c == 'G' { 'g' } else if c == 'H' { 'h' } else if c == 'I' { 'i' }
    else if c == 'J' { 'j' } else if c == 'K' { 'k' } else if c == 'L' { 'l' }
    else if c == 'M' { 'm' } else if c == 'N' { 'n' } else if c == 'O' { 'o' }
    else if c == 'P' { 'p' } else if c == 'Q' { 'q' } else if c == 'R' { 'r' }
    else if c == 'S' { 's' } else if c == 'T' { 't' } else if c == 'U' { 'u' }
    else if c == 'V' { 'v' } else if c == 'W' { 'w' } else if c == 'X' { 'x' }
    else if c == 'Y' { 'y' } else if c == 'Z' { 'z' } else { c }
}

/// Exec mirror of [`spec_lower_char`].
pub fn lower_char(c: char) -> (r: char)
    ensures
        r == spec_lower_char(c),
{
    match c {
        'A' => 'a', 'B' => 'b', 'C' => 'c', 'D' => 'd', 'E' => 'e', 'F' => 'f',
        'G' => 'g', 'H' => 'h', 'I' => 'i', 'J' => 'j', 'K' => 'k', 'L' => 'l',
        'M' => 'm', 'N' => 'n', 'O' => 'o', 'P' => 'p', 'Q' => 'q', 'R' => 'r',
        'S' => 's', 'T' => 't', 'U' => 'u', 'V' => 'v', 'W' => 'w', 'X' => 'x',
        'Y' => 'y', 'Z' => 'z',
        _ => c,
    }
}

/// A character sequence with every ASCII letter lowered.
pub open spec fn spec_lower(s: Seq<char>) -> Seq<char> {
    Seq::new(s.len(), |i: int| spec_lower_char(s[i]))
}

/// The length of the leading run of non-whitespace characters.
pub open spec fn spec_token_len(s: Seq<char>) -> nat
    decreases s.len(),
{
    if s.len() == 0 || spec_is_space(s[0]) {
        0
    } else {
        1 + spec_token_len(s.drop_first())
    }
}

/// The leading token never reaches past the end of the sequence.
pub proof fn lemma_token_len_le(s: Seq<char>)
    ensures
        spec_token_len(s) <= s.len(),
    decreases s.len(),
{
    if s.len() > 0 && !spec_is_space(s[0]) {
        lemma_token_len_le(s.drop_first());
    }
}

/// The whitespace-separated tokens of a character sequence, in order.
pub open spec fn spec_tokens(s: Seq<char>) -> Seq<Seq<char>>
    decreases s.len() via spec_tokens_decreases
{
    if s.len() == 0 {
        Seq::empty()
    } else if spec_is_space(s[0]) {
        spec_tokens(s.drop_first())
    } else {
        seq![s.take(spec_token_len(s) as int)] + spec_tokens(s.skip(spec_token_len(s) as int))
    }
}

#[via_fn]
proof fn spec_tokens_decreases(s: Seq<char>) {
    if s.len() > 0 && !spec_is_space(s[0]) {
        lemma_token_len_le(s);
        assert(spec_token_len(s) >= 1);
    }
}

/// The leading non-whitespace run reaches exactly to the first whitespace
/// character, or to the end when there is none.
pub proof fn lemma_token_len_is(t: Seq<char>, d: int)
    requires
        0 <= d <= t.len(),
        forall|m: int| 0 <= m < d ==> !spec_is_space(#[trigger] t[m]),
        d < t.len() ==> spec_is_space(t[d]),
    ensures
        spec_token_len(t) == d,
    decreases d,
{
    if d == 0 {
    } else {
        assert(!spec_is_space(t[0]));
        assert forall|m: int| 0 <= m < d - 1 implies !spec_is_space(#[trigger] t.drop_first()[m]) by {
            assert(t.drop_first()[m] == t[m + 1]);
        }
        if d - 1 < t.drop_first().len() {
            assert(t.drop_first()[d - 1] == t[d]);
        }
        lemma_token_len_is(t.drop_first(), d - 1);
    }
}

/// A nonempty sequence of non-whitespace characters is a single token.
pub proof fn lemma_tokens_single(t: Seq<char>)
    requires
        t.len() > 0,
        forall|m: int| 0 <= m < t.len() ==> !spec_is_space(#[trigger] t[m]),
    ensures
        spec_tokens(t) == seq![t],
{
    lemma_token_len_is(t, t.len() as int);
    assert(t.take(t.len() as int) =~= t);
    assert(t.skip(t.len() as int) =~= Seq::<char>::empty());
    assert(spec_tokens(Seq::<char>::empty()) == Seq::<Seq<char>>::empty());
    assert(spec_tokens(t) == seq![t.take(t.len() as int)] + spec_tokens(t.skip(t.len() as int)));
    assert(spec_tokens(t) =~= seq![t]);
}

/// Leading whitespace adds no token.
pub proof fn lemma_tokens_space_prepend(t: Seq<char>)
    ensures
        spec_tokens(seq![' '] + t) == spec_tokens(t),
{
    assert((seq![' '] + t)[0] == ' ');
    assert((seq![' '] + t).drop_first() =~= t);
}

/// A leading word followed by whitespace, or by nothing, is the first
/// token, and the rest tokenizes on its own.
pub proof fn lemma_tokens_word_prepend(w: Seq<char>, t: Seq<char>)
    requires
        w.len() > 0,
        forall|m: int| 0 <= m < w.len() ==> !spec_is_space(#[trigger] w[m]),
        t.len() > 0 ==> spec_is_space(t[0]),
    ensures
        spec_tokens(w + t) == seq![w] + spec_tokens(t),
{
    let s = w + t;
    assert forall|m: int| 0 <= m < w.len() implies !spec_is_space(#[trigger] s[m]) by {
        assert(s[m] == w[m]);
    }
    if (w.len() as int) < s.len() {
        assert(s[w.len() as int] == t[0]);
    }
    lemma_token_len_is(s, w.len() as int);
    assert(s.take(w.len() as int) =~= w);
    assert(s.skip(w.len() as int) =~= t);
    assert(!spec_is_space(s[0]));
}

/// The position, at or after `i`, of the first whitespace character; the
/// sequence's length when there is none.
fn token_end(s: &str, i: usize) -> (j: usize)
    requires
        i < s@.len(),
        !spec_is_space(s@[i as int]),
    ensures
        i < j <= s@.len(),
        forall|m: int| i <= m < j ==> !spec_is_space(#[trigger] s@[m]),
        j < s@.len() ==> spec_is_space(s@[j as int]),
{
    let n = s.unicode_len();
    let mut j: usize = i + 1;
    while j < n
        invariant
            n == s@.len(),
            i < j <= n,
            forall|m: int| i <= m < j ==> !spec_is_space(#[trigger] s@[m]),
        decreases n - j,
    {
        if is_space(s.get_char(j)) {
            return j;
        }
        j += 1;
    }
    j
}

/// Splits a string into its whitespace-separated tokens.
pub fn tokenize(s: &str) -> (toks: Vec<String>)
    ensures
        toks.deep_view() == spec_tokens(s@),
{
    let n = s.unicode_len();
    let mut toks: Vec<String> = Vec::new();
    let mut i: usize = 0;
    proof {
        assert(s@.skip(0) =~= s@);
        assert(toks.deep_view() =~= Seq::<Seq<char>>::empty());
        assert(toks.deep_view() + spec_tokens(s@) =~= spec_tokens(s@));
    }
    while i < n
        invariant
            n == s@.len(),
            i <= n,
            toks.deep_view() + spec_tokens(s@.skip(i as int)) == spec_tokens(s@),
        decreases n - i,
    {
        let c = s.get_char(i);
        if is_space(c) {
            proof {
                assert(s@.skip(i as int).drop_first() =~= s@.skip(i + 1int));
            }
            i += 1;
        } else {
            let j = token_end(s, i);
            proof {
                assert forall|m: int| 0 <= m < j - i implies !spec_is_space(
                    #[trigger] s@.skip(i as int)[m],
                ) by {
                    assert(s@.skip(i as int)[m] == s@[i + m]);
                }
                if j - i < s@.skip(i as int).len() {
                    assert(s@.skip(i as int)[j - i] == s@[j as int]);
                }
                lemma_token_len_is(s@.skip(i as int), j - i);
                assert(s@.skip(i as int).take(j - i) =~= s@.subrange(i as int, j as int));
                assert(s@.skip(i as int).skip(j - i) =~= s@.skip(j as int));
            }
            let tok = s.substring_char(i, j).to_owned();
            let ghost before = toks.deep_view();
            toks.push(tok);
            proof {
                assert(toks.deep_view() =~= before.push(s@.subrange(i as int, j as int)));
                assert(toks.deep_view() + spec_tokens(s@.skip(j as int)) =~= before + spec_tokens(
                    s@.skip(i as int),
                ));
            }
            i = j;
        }
    }
    proof {
        assert(s@.skip(n as int) =~= Seq::<char>::empty());
        assert(toks.deep_view() =~= toks.deep_view() + spec_tokens(s@.skip(n as int)));
    }
    toks
}

/// The tokens after the first, as owned strings.
pub fn tail_of(toks: &Vec<String>) -> (r: Vec<String>)
    requires
        toks@.len() >= 1,
    ensures
        r.deep_view() == toks.deep_view().skip(1),
{
    let mut r: Vec<String> = Vec::new();
    let mut i: usize = 1;
    while i < toks.len()
        invariant
            1 <= i <= toks@.len(),
            r@.len() == i - 1,
            forall|k: int| 0 <= k < i - 1 ==> #[trigger] r.deep_view()[k] == toks.deep_view()[k + 1],
        decreases toks@.len() - i,
    {
        let ghost before = r.deep_view();
        let ghost rv = r@;
        r.push(toks[i].clone());
        proof {
            assert(r@ == rv.push(toks@[i as int]));
            assert forall|k: int| 0 <= k < i implies #[trigger] r.deep_view()[k]
                == toks.deep_view()[k + 1] by {
                assert(r.deep_view()[k] == r@[k]@);
                assert(toks.deep_view()[k + 1] == toks@[k + 1]@);
                if k < i - 1 {
                    assert(r@[k] == rv[k]);
                    assert(before[k] == rv[k]@);
                    assert(before[k] == toks.deep_view()[k + 1]);
                } else {
                    assert(r@[k] == toks@[i as int]);
                }
            }
        }
        i += 1;
    }
    proof {
        assert(toks.deep_view().len() == toks@.len());
        assert forall|k: int| 0 <= k < toks.deep_view().skip(1).len() implies toks.deep_view().skip(
            1,
        )[k] == r.deep_view()[k] by {
            assert(toks.deep_view().skip(1)[k] == toks.deep_view()[k + 1]);
        }
        assert(r.deep_view() =~= toks.deep_view().skip(1));
    }
    r
}

/// True when lowering the first string yields exactly the second.
pub fn eq_lowered(tok: &String, lit: &str) -> (r: bool)
    ensures
        r == (spec_lower(tok@) == lit@),
{
    let tn = tok.as_str().unicode_len();
    let ln = lit.unicode_len();
    if tn != ln {
        proof {
            assert(spec_lower(tok@).len() == tok@.len());
        }
        return false;
    }
    let mut i: usize = 0;
    while i < tn
        invariant
            tn == tok@.len(),
            tok@.len() == lit@.len(),
            i <= tn,
            forall|k: int| 0 <= k < i ==> spec_lower(tok@)[k] == lit@[k],
        decreases tn - i,
    {
        if lower_char(tok.as_str().get_char(i)) != lit.get_char(i) {
            proof {
                assert(spec_lower(tok@)[i as int] != lit@[i as int]);
            }
            return false;
        }
        i += 1;
    }
    proof {
        assert(spec_lower(tok@) =~= lit@);
    }
    true
}

} // verus!
