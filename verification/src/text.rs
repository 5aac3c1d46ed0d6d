//! Text primitives of the source synthesizer: decimal rendering, joining and
//! bare-word substitution, each stated over sequences of characters.

use vstd::prelude::*;
use vstd::std_specs::iter::IteratorSpec;

verus! {

/// The parts of `parts`, in order, with `sep` between each two neighbours.
pub open spec fn join_text(parts: Seq<Seq<char>>, sep: Seq<char>) -> Seq<char>
    decreases parts.len(),
{
    if parts.len() == 0 {
        Seq::empty()
    } else if parts.len() == 1 {
        parts[0]
    } else {
        join_text(parts.drop_last(), sep) + sep + parts.last()
    }
}

/// `text` with every occurrence of `from` replaced by `to`, scanning from the
/// left and never revisiting replaced text. An empty `from` matches before
/// every character and at the end.
pub open spec fn replace_all(text: Seq<char>, from: Seq<char>, to: Seq<char>) -> Seq<char>
    decreases text.len(),
{
    if from.len() == 0 {
        if text.len() == 0 {
            to
        } else {
            to + seq![text[0]] + replace_all(text.skip(1), from, to)
        }
    } else if text.len() < from.len() {
        text
    } else if text.take(from.len() as int) == from {
        to + replace_all(text.skip(from.len() as int), from, to)
    } else {
        seq![text[0]] + replace_all(text.skip(1), from, to)
    }
}

/// Whether `pattern` occurs in `text`.
pub open spec fn occurs(pattern: Seq<char>, text: Seq<char>) -> bool {
    exists|i: int|
        0 <= i && i + pattern.len() <= text.len() && #[trigger] text.subrange(
            i,
            i + pattern.len(),
        ) == pattern
}

/// The number of characters of `text` that a substitution of `from` copies
/// before it replaces the first occurrence, or all of them where it
/// replaces none.
pub open spec fn kept(text: Seq<char>, from: Seq<char>) -> nat
    decreases text.len(),
{
    if from.len() == 0 || text.len() < from.len() {
        text.len()
    } else if text.take(from.len() as int) == from {
        0
    } else {
        1 + kept(text.skip(1), from)
    }
}

/// Writing `to` cannot complete an occurrence of `pattern`: `to` is not
/// empty and not longer than `pattern`, its last character is none of
/// `pattern`, and its first character is none of the last characters of
/// `pattern` that a beginning of `to` could stand for.
pub open spec fn clean(pattern: Seq<char>, to: Seq<char>) -> bool {
    &&& 0 < to.len() <= pattern.len()
    &&& forall|i: int| 0 <= i < pattern.len() ==> #[trigger] pattern[i] != to.last()
    &&& forall|k: int| 1 <= k < to.len() ==> #[trigger] pattern[pattern.len() - k] != to[0]
}

/// A substitution copies the text before the first occurrence, which holds
/// no occurrence, writes the replacement, and goes on behind the
/// occurrence.
pub proof fn lemma_kept(text: Seq<char>, from: Seq<char>, to: Seq<char>)
    requires
        from.len() > 0,
    ensures
        kept(text, from) <= text.len(),
        forall|j: int|
            0 <= j < kept(text, from) && j + from.len() <= text.len() ==> #[trigger] text.subrange(
                j,
                j + from.len(),
            ) != from,
        kept(text, from) == text.len() ==> replace_all(text, from, to) == text,
        kept(text, from) < text.len() ==> kept(text, from) + from.len() <= text.len()
            && replace_all(text, from, to) == text.take(kept(text, from) as int) + to
            + replace_all(text.skip((kept(text, from) + from.len()) as int), from, to),
    decreases text.len(),
{
    let m = from.len() as int;
    if text.len() < m {
    } else if text.take(m) == from {
        assert(text.take(0) + to =~= to);
    } else {
        let rest = text.skip(1);
        lemma_kept(rest, from, to);
        let k = kept(rest, from) as int;
        assert forall|j: int| 0 <= j < k + 1 && j + m <= text.len() implies #[trigger] text.subrange(
            j,
            j + m,
        ) != from by {
            if j == 0 {
                assert(text.subrange(0, m) =~= text.take(m));
            } else {
                assert(text.subrange(j, j + m) =~= rest.subrange(j - 1, j - 1 + m));
            }
        }
        if k == rest.len() {
            assert(seq![text[0]] + rest =~= text);
        } else {
            assert(text.take(k + 1) =~= seq![text[0]] + rest.take(k));
            assert(rest.skip(k + m) =~= text.skip(k + 1 + m));
            assert(seq![text[0]] + (rest.take(k) + to + replace_all(rest.skip(k + m), from, to))
                =~= text.take(k + 1) + to + replace_all(text.skip(k + 1 + m), from, to));
        }
    }
}

/// A substitution leaves no occurrence of a pattern that its replacement
/// cannot complete, where the pattern is the one it replaces or one that
/// the text did not hold.
pub proof fn lemma_pattern_stays_out(
    text: Seq<char>,
    from: Seq<char>,
    to: Seq<char>,
    pattern: Seq<char>,
)
    requires
        from.len() > 0,
        clean(pattern, to),
        pattern == from || !occurs(pattern, text),
    ensures
        !occurs(pattern, replace_all(text, from, to)),
    decreases text.len(),
{
    lemma_kept(text, from, to);
    let k = kept(text, from) as int;
    let m = from.len() as int;
    let n = pattern.len() as int;
    let w = to.len() as int;
    let out = replace_all(text, from, to);
    if k == text.len() {
        assert forall|o: int| 0 <= o && o + n <= out.len() implies #[trigger] out.subrange(
            o,
            o + pattern.len(),
        ) != pattern by {
            if pattern == from {
                assert(text.subrange(o, o + m) != from);
            }
        }
    } else {
        let rest = text.skip(k + m);
        let tail = replace_all(rest, from, to);
        if pattern != from {
            assert forall|j: int| 0 <= j && j + n <= rest.len() implies #[trigger] rest.subrange(
                j,
                j + pattern.len(),
            ) != pattern by {
                assert(rest.subrange(j, j + n) =~= text.subrange(j + k + m, j + k + m + n));
            }
        }
        lemma_pattern_stays_out(rest, from, to, pattern);
        assert(out == text.take(k) + to + tail);
        assert forall|o: int| 0 <= o && o + n <= out.len() implies #[trigger] out.subrange(
            o,
            o + pattern.len(),
        ) != pattern by {
            let found = out.subrange(o, o + n);
            if found == pattern {
                if o + n <= k {
                    assert(found =~= text.subrange(o, o + n));
                    if pattern == from {
                        assert(text.subrange(o, o + m) != from);
                    }
                } else if o >= k + w {
                    assert(found =~= tail.subrange(o - k - w, o - k - w + n));
                } else if o + n > k + w - 1 {
                    assert(out[k + w - 1] == to.last());
                    assert(found[k + w - 1 - o] == out[k + w - 1]);
                    assert(pattern[k + w - 1 - o] == to.last());
                } else if o < k {
                    assert(out[k] == to[0]);
                    assert(found[k - o] == out[k]);
                    let behind = o + n - k;
                    assert(pattern[n - behind] == to[0]);
                }
            }
        }
    }
}

/// A text that does not hold the beginning of a pattern does not hold the
/// pattern.
pub proof fn lemma_prefix_stays_out(text: Seq<char>, prefix: Seq<char>, pattern: Seq<char>)
    requires
        prefix.len() <= pattern.len(),
        pattern.take(prefix.len() as int) == prefix,
        !occurs(prefix, text),
    ensures
        !occurs(pattern, text),
{
    assert forall|o: int| 0 <= o && o + pattern.len() <= text.len() implies #[trigger] text.subrange(
        o,
        o + pattern.len(),
    ) != pattern by {
        if text.subrange(o, o + pattern.len()) == pattern {
            assert(text.subrange(o, o + prefix.len()) =~= text.subrange(
                o,
                o + pattern.len(),
            ).take(prefix.len() as int));
        }
    }
}

/// The character that stands for the decimal digit `d`.
pub open spec fn digit_char(d: nat) -> char
    recommends
        d < 10,
{
    (48 + d) as char
}

/// The decimal numeral of `n`: no sign, no leading zero, `"0"` for zero.
pub open spec fn decimal(n: nat) -> Seq<char>
    decreases n,
{
    if n < 10 {
        seq![digit_char(n)]
    } else {
        decimal(n / 10).push(digit_char(n % 10))
    }
}

/// `String::push` appends one character to the end of the string.
pub assume_specification[ String::push ](s: &mut String, c: char)
    ensures
        final(s)@ == old(s)@.push(c),
;

/// The characters of `s`, in order.
pub fn chars_of(s: &str) -> (v: Vec<char>)
    ensures
        v@ == s@,
{
    let mut v: Vec<char> = Vec::new();
    let mut it = s.chars();
    loop
        invariant
            v@ + it.remaining() == s@,
        ensures
            v@ == s@,
        decreases s@.len() - v@.len(),
    {
        match it.next() {
            Some(c) => {
                v.push(c);
            },
            None => {
                break ;
            },
        }
    }
    v
}

/// The character of one decimal digit.
fn digit_of(d: u8) -> (c: char)
    requires
        d < 10,
    ensures
        c == digit_char(d as nat),
{
    (48u8 + d) as char
}

/// Appends the decimal numeral of `x` to `s`.
pub fn push_decimal(s: &mut String, x: u64)
    ensures
        final(s)@ == old(s)@ + decimal(x as nat),
    decreases x,
{
    if x >= 10 {
        push_decimal(s, x / 10);
    }
    s.push(digit_of((x % 10) as u8));
}

/// The decimal numeral of `x`.
pub fn to_decimal(x: u64) -> (s: String)
    ensures
        s@ == decimal(x as nat),
{
    let mut s = String::new();
    push_decimal(&mut s, x);
    s
}

/// Whether `pattern` stands in `text` at position `at`.
fn matches_at(text: &Vec<char>, at: usize, pattern: &Vec<char>) -> (b: bool)
    requires
        at + pattern.len() <= text.len(),
    ensures
        b == (text@.subrange(at as int, at + pattern.len()) == pattern@),
{
    let mut j: usize = 0;
    while j < pattern.len()
        invariant
            j <= pattern.len(),
            at + pattern.len() <= text.len(),
            forall|k: int| 0 <= k < j ==> text@[at + k] == pattern@[k],
        decreases pattern.len() - j,
    {
        if text[at + j] != pattern[j] {
            assert(text@.subrange(at as int, at + pattern.len())[j as int] != pattern@[j as int]);
            return false;
        }
        j += 1;
    }
    assert(text@.subrange(at as int, at + pattern.len()) =~= pattern@);
    true
}

/// `text` with every occurrence of `from` replaced by `to`.
pub fn replace(text: &str, from: &str, to: &str) -> (out: String)
    ensures
        out@ == replace_all(text@, from@, to@),
{
    let t = chars_of(text);
    let f = chars_of(from);
    let mut out = String::new();
    let mut i: usize = 0;
    assert(t@.skip(0) =~= t@);
    while i < t.len()
        invariant
            i <= t.len(),
            t@ == text@,
            f@ == from@,
            out@ + replace_all(t@.skip(i as int), f@, to@) == replace_all(t@, f@, to@),
        decreases t.len() - i,
    {
        let ghost rest = t@.skip(i as int);
        let ghost done = out@;
        if f.len() == 0 {
            out.append(to);
            out.push(t[i]);
            proof {
                assert(rest.skip(1) =~= t@.skip(i + 1));
                assert(out@ + replace_all(rest.skip(1), f@, to@) =~= done + (to@ + seq![rest[0]]
                    + replace_all(rest.skip(1), f@, to@)));
            }
            i += 1;
        } else if t.len() - i >= f.len() && matches_at(&t, i, &f) {
            out.append(to);
            proof {
                assert(rest.take(f.len() as int) =~= t@.subrange(i as int, i + f.len()));
                assert(rest.skip(f.len() as int) =~= t@.skip(i + f.len()));
                assert(out@ + replace_all(rest.skip(f.len() as int), f@, to@) =~= done + (to@
                    + replace_all(rest.skip(f.len() as int), f@, to@)));
            }
            i += f.len();
        } else {
            out.push(t[i]);
            proof {
                if t.len() - i >= f.len() {
                    assert(rest.take(f.len() as int) =~= t@.subrange(i as int, i + f.len()));
                }
                assert(rest.skip(1) =~= t@.skip(i + 1));
                if t.len() - i < f.len() {
                    assert(replace_all(rest, f@, to@) == rest);
                    assert(replace_all(rest.skip(1), f@, to@) == rest.skip(1));
                }
                assert(rest =~= seq![rest[0]] + rest.skip(1));
                assert(out@ + replace_all(rest.skip(1), f@, to@) =~= done + (seq![rest[0]]
                    + replace_all(rest.skip(1), f@, to@)));
            }
            i += 1;
        }
    }
    if f.len() == 0 {
        out.append(to);
    }
    proof {
        assert(t@.skip(i as int) =~= Seq::<char>::empty());
        assert(out@ =~= replace_all(t@, f@, to@));
    }
    out
}

/// `itertools::join` on a list of strings: each element is written by its
/// `Display`, which for a string is the string itself, and `sep` is written
/// before every element but the first. Nothing is written for an empty list.
#[verifier::external_body]
pub(crate) fn join(parts: &Vec<String>, sep: &str) -> (out: String)
    ensures
        out@ == join_text(parts.deep_view(), sep@),
{
    itertools::join(parts, sep)
}

/// The sections of `parts` in order, with `sep` between each two.
pub fn join_sections(parts: &Vec<String>, sep: &str) -> (out: String)
    ensures
        out@ == join_text(parts.deep_view(), sep@),
{
    let mut out = String::new();
    let mut i: usize = 0;
    assert(parts.deep_view().take(0) =~= Seq::<Seq<char>>::empty());
    while i < parts.len()
        invariant
            i <= parts.len(),
            out@ == join_text(parts.deep_view().take(i as int), sep@),
        decreases parts.len() - i,
    {
        let ghost before = parts.deep_view().take(i as int);
        let ghost after = parts.deep_view().take(i + 1);
        if i > 0 {
            out.append(sep);
        }
        out.append(parts[i].as_str());
        proof {
            assert(after.drop_last() =~= before);
            assert(after.last() == parts[i as int]@);
            assert(out@ =~= join_text(after, sep@));
        }
        i += 1;
    }
    assert(parts.deep_view().take(parts.len() as int) =~= parts.deep_view());
    out
}

} // verus!
