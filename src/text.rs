//! Normalisation of generated text: runs of blank lines are collapsed so that
//! at most one blank line separates two lines.

use vstd::prelude::*;
use vstd::std_specs::iter::IteratorSpec;

verus! {

/// Whether `s` ends with two newline characters.
pub open spec fn ends_with_blank_line(s: Seq<char>) -> bool {
    s.len() >= 2 && s[s.len() - 1] == '\n' && s[s.len() - 2] == '\n'
}

/// Whether the character at `i` is a newline that would start a second
/// blank line in a row.
pub open spec fn is_extra_newline(s: Seq<char>, i: int) -> bool {
    s[i] == '\n' && ends_with_blank_line(s.take(i))
}

/// `s` with every newline dropped that follows two newlines: each run of
/// three or more newline characters becomes exactly two.
pub open spec fn collapse_blank_lines(s: Seq<char>) -> Seq<char>
    decreases s.len(),
{
    if s.len() == 0 {
        s
    } else {
        let init = collapse_blank_lines(s.take(s.len() - 1));
        if is_extra_newline(s, s.len() - 1) {
            init
        } else {
            init.push(s.last())
        }
    }
}

/// Whether `s` holds no three newline characters in a row.
pub open spec fn no_triple_newline(s: Seq<char>) -> bool {
    forall|i: int| 2 <= i < s.len() ==> !(#[trigger] s[i] == '\n' && s[i - 1] == '\n' && s[i - 2] == '\n')
}

/// Relies on String::push: appends one character.
#[verifier::external_body]
pub(crate) fn push_char(s: &mut String, c: char)
    ensures
        final(s)@ == old(s)@.push(c),
{
    s.push(c)
}

/// The characters of `s`, in order.
pub fn to_chars(s: &str) -> (r: Vec<char>)
    ensures
        r@ == s@,
{
    broadcast use vstd::string::group_string_axioms;

    let mut it = s.chars();
    let mut v: Vec<char> = Vec::new();
    loop
        invariant
            it.obeys_prophetic_iter_laws(),
            v@ + it.remaining() == s@,
            it.decrease() is Some,
        ensures
            v@ == s@,
        decreases it.decrease()->0,
    {
        let ghost before = it.remaining();
        match it.next() {
            Some(c) => {
                v.push(c);
                proof {
                    assert(v@ + it.remaining() =~= s@);
                }
            },
            None => {
                proof {
                    assert(v@ =~= s@);
                }
                break;
            },
        }
    }
    v
}

/// Collapses each run of three or more newline characters into two.
pub fn remove_triple_newlines(string: &str) -> (r: String)
    ensures
        r@ == collapse_blank_lines(string@),
{
    let chars = to_chars(string);
    let n = chars.len();
    let mut out = String::new();
    let mut prev1 = ' ';
    let mut prev2 = ' ';
    let mut i: usize = 0;
    while i < n
        invariant
            n == string@.len(),
            chars@ == string@,
            0 <= i <= n,
            out@ == collapse_blank_lines(string@.take(i as int)),
            i >= 1 ==> prev1 == string@[i - 1],
            i >= 2 ==> prev2 == string@[i - 2],
        decreases n - i,
    {
        let c = chars[i];
        let ghost s = string@.take(i + 1);
        proof {
            assert(s.take(i as int) =~= string@.take(i as int));
            assert(s.last() == c);
        }
        if !(c == '\n' && i >= 2 && prev1 == '\n' && prev2 == '\n') {
            push_char(&mut out, c);
        }
        prev2 = prev1;
        prev1 = c;
        i = i + 1;
    }
    proof {
        assert(string@.take(n as int) =~= string@);
    }
    out
}

proof fn lemma_collapse_ends(s: Seq<char>)
    ensures
        (s.len() >= 1 && s.last() == '\n') <==> (collapse_blank_lines(s).len() >= 1
            && collapse_blank_lines(s).last() == '\n'),
        ends_with_blank_line(s) <==> ends_with_blank_line(collapse_blank_lines(s)),
    decreases s.len(),
{
    if s.len() > 0 {
        let p = s.take(s.len() - 1);
        lemma_collapse_ends(p);
        if s.len() >= 2 {
            assert(p.last() == s[s.len() - 2]);
        }
        if s.len() >= 3 {
            assert(p[p.len() - 2] == s[s.len() - 3]);
        }
    }
}

proof fn lemma_collapse_no_triple(s: Seq<char>)
    ensures
        no_triple_newline(collapse_blank_lines(s)),
    decreases s.len(),
{
    if s.len() > 0 {
        let p = s.take(s.len() - 1);
        lemma_collapse_no_triple(p);
        lemma_collapse_ends(p);
        let r = collapse_blank_lines(p);
        let t = collapse_blank_lines(s);
        if !is_extra_newline(s, s.len() - 1) {
            assert forall|i: int| 2 <= i < t.len() implies !(#[trigger] t[i] == '\n' && t[i - 1]
                == '\n' && t[i - 2] == '\n') by {
                if i < t.len() - 1 {
                    assert(t[i] == r[i] && t[i - 1] == r[i - 1] && t[i - 2] == r[i - 2]);
                }
            }
        }
    }
}

proof fn lemma_collapse_fixed(t: Seq<char>)
    requires
        no_triple_newline(t),
    ensures
        collapse_blank_lines(t) == t,
    decreases t.len(),
{
    if t.len() > 0 {
        let p = t.take(t.len() - 1);
        assert forall|i: int| 2 <= i < p.len() implies !(#[trigger] p[i] == '\n' && p[i - 1]
            == '\n' && p[i - 2] == '\n') by {
            assert(p[i] == t[i] && p[i - 1] == t[i - 1] && p[i - 2] == t[i - 2]);
        }
        lemma_collapse_fixed(p);
        if t.len() >= 3 {
            assert(p[p.len() - 1] == t[t.len() - 2]);
            assert(p[p.len() - 2] == t[t.len() - 3]);
        }
        assert(p.push(t.last()) =~= t);
    }
}

/// Collapsing blank lines is idempotent, and its result never holds three
/// newline characters in a row.
pub proof fn lemma_collapse_idempotent(s: Seq<char>)
    ensures
        collapse_blank_lines(collapse_blank_lines(s)) == collapse_blank_lines(s),
        no_triple_newline(collapse_blank_lines(s)),
{
    lemma_collapse_no_triple(s);
    lemma_collapse_fixed(collapse_blank_lines(s));
}

} // verus!
