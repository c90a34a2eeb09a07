//! Literal replacement of one text by another, everywhere it occurs.

use crate::text::{chars_of, extend_chars, option_view, string_from};
use vstd::prelude::*;

verus! {

/// `s` with `between` before its first character, after its last, and between
/// any two.
pub open spec fn interleave(s: Seq<char>, between: Seq<char>) -> Seq<char>
    decreases s.len(),
{
    if s.len() == 0 {
        between
    } else {
        between + seq![s[0]] + interleave(s.skip(1), between)
    }
}

/// `s` with every occurrence of `from` replaced by `to`. Occurrences are
/// found from left to right and do not overlap; the text is compared
/// character for character, and no character stands for anything but itself.
/// The empty text occurs before and after every character.
pub open spec fn replace_all(s: Seq<char>, from: Seq<char>, to: Seq<char>) -> Seq<char>
    decreases s.len(),
{
    if from.len() == 0 {
        interleave(s, to)
    } else if s.len() < from.len() {
        s
    } else if s.take(from.len() as int) == from {
        to + replace_all(s.skip(from.len() as int), from, to)
    } else {
        seq![s[0]] + replace_all(s.skip(1), from, to)
    }
}

/// The path `name` under a rewrite rule: without a text to replace it stays
/// as it is; a rule without a replacement takes the text out.
pub open spec fn rewrite_spec(
    name: Seq<char>,
    from: Option<Seq<char>>,
    to: Option<Seq<char>>,
) -> Seq<char> {
    match from {
        Some(from) => replace_all(
            name,
            from,
            match to {
                Some(to) => to,
                None => Seq::empty(),
            },
        ),
        None => name,
    }
}

/// A text that is shorter than `from` is left as it is.
proof fn lemma_replace_short(s: Seq<char>, from: Seq<char>, to: Seq<char>)
    requires
        s.len() < from.len(),
    ensures
        replace_all(s, from, to) == s,
{
}

/// Whether `from` occurs in `s` at index `i`.
pub open spec fn occurs(s: Seq<char>, from: Seq<char>, i: int) -> bool {
    0 <= i && i + from.len() <= s.len() && s.subrange(i, i + from.len() as int) == from
}

/// A text in which `from` does not occur is left as it is.
pub proof fn lemma_replace_absent(s: Seq<char>, from: Seq<char>, to: Seq<char>)
    requires
        from.len() > 0,
        forall|i: int| !occurs(s, from, i),
    ensures
        replace_all(s, from, to) == s,
    decreases s.len(),
{
    if s.len() >= from.len() {
        assert(!occurs(s, from, 0));
        let rest = s.skip(1);
        assert forall|i: int| !occurs(rest, from, i) by {
            if occurs(rest, from, i) {
                assert(rest.subrange(i, i + from.len() as int) == s.subrange(
                    i + 1,
                    i + 1 + from.len() as int,
                ));
                assert(occurs(s, from, i + 1));
            }
        }
        lemma_replace_absent(rest, from, to);
    }
}

/// Whether `v[at..]` begins with `word`.
fn occurs_at(v: &Vec<char>, at: usize, word: &Vec<char>) -> (b: bool)
    requires
        at <= v.len(),
    ensures
        b == (v@.skip(at as int).len() >= word@.len() && v@.skip(at as int).take(
            word@.len() as int,
        ) == word@),
{
    let n = word.len();
    if v.len() - at < n {
        return false;
    }
    let ghost window = v@.skip(at as int).take(n as int);
    let mut k: usize = 0;
    while k < n
        invariant
            k <= n,
            n == word.len(),
            at + n <= v.len(),
            window == v@.skip(at as int).take(n as int),
            forall|j: int| 0 <= j < k ==> window[j] == word@[j],
        decreases n - k,
    {
        if v[at + k] != word[k] {
            return false;
        }
        k += 1;
    }
    assert(window == word@);
    true
}

/// `s` with every occurrence of `from` replaced by `to`.
pub fn replace_chars(s: &Vec<char>, from: &Vec<char>, to: &Vec<char>) -> (out: Vec<char>)
    ensures
        out@ == replace_all(s@, from@, to@),
{
    let mut out: Vec<char> = Vec::new();
    let mut i: usize = 0;
    let n = from.len();
    assert(s@.skip(0) == s@);
    if n == 0 {
        while i < s.len()
            invariant
                i <= s.len(),
                from@.len() == 0,
                out@ + interleave(s@.skip(i as int), to@) == interleave(s@, to@),
            decreases s.len() - i,
        {
            let ghost rest = s@.skip(i as int);
            extend_chars(&mut out, to);
            out.push(s[i]);
            assert(rest.skip(1) == s@.skip(i + 1));
            i += 1;
        }
        extend_chars(&mut out, to);
        return out;
    }
    while i < s.len()
        invariant
            i <= s.len(),
            n == from.len(),
            n > 0,
            out@ + replace_all(s@.skip(i as int), from@, to@) == replace_all(s@, from@, to@),
        decreases s.len() - i,
    {
        let ghost rest = s@.skip(i as int);
        if occurs_at(s, i, from) {
            extend_chars(&mut out, to);
            assert(rest.skip(n as int) == s@.skip(i + n));
            i += n;
        } else {
            out.push(s[i]);
            proof {
                assert(rest.skip(1) == s@.skip(i + 1));
                if rest.len() < n {
                    lemma_replace_short(rest, from@, to@);
                    lemma_replace_short(rest.skip(1), from@, to@);
                }
            }
            i += 1;
        }
    }
    out
}

/// The path `name` under the rewrite rule of `from` and `to`.
pub fn rewrite(name: &str, from: &Option<String>, to: &Option<String>) -> (path: String)
    ensures
        path@ == rewrite_spec(name@, option_view(*from), option_view(*to)),
{
    match from {
        Some(from) => {
            let replacement = match to {
                Some(to) => chars_of(to.as_str()),
                None => Vec::new(),
            };
            let out = replace_chars(&chars_of(name), &chars_of(from.as_str()), &replacement);
            let path = string_from(&out, 0, out.len());
            path
        },
        None => String::from_str(name),
    }
}

} // verus!
