//! Text as a sequence of characters: white space, trimming, prefixes and the
//! lexicographic order.

use vstd::prelude::*;
use vstd::string::StrSliceExecFns;

verus! {

/// The characters with the Unicode `White_Space` property.
pub open spec fn is_white(c: char) -> bool {
    ||| '\u{9}' <= c <= '\u{d}'
    ||| c == ' '
    ||| c == '\u{85}'
    ||| c == '\u{a0}'
    ||| c == '\u{1680}'
    ||| '\u{2000}' <= c <= '\u{200a}'
    ||| c == '\u{2028}'
    ||| c == '\u{2029}'
    ||| c == '\u{202f}'
    ||| c == '\u{205f}'
    ||| c == '\u{3000}'
}

/// Some character of `s` is white space.
pub open spec fn has_white(s: Seq<char>) -> bool {
    exists|i: int| 0 <= i < s.len() && is_white(#[trigger] s[i])
}

/// Every character of `s` is white space. True of the empty text.
pub open spec fn all_white(s: Seq<char>) -> bool {
    forall|i: int| 0 <= i < s.len() ==> is_white(#[trigger] s[i])
}

/// `s` without its leading white space.
pub open spec fn trim_start(s: Seq<char>) -> Seq<char>
    decreases s.len(),
{
    if s.len() > 0 && is_white(s[0]) {
        trim_start(s.skip(1))
    } else {
        s
    }
}

/// `s` without its trailing white space.
pub open spec fn trim_end(s: Seq<char>) -> Seq<char>
    decreases s.len(),
{
    if s.len() > 0 && is_white(s.last()) {
        trim_end(s.drop_last())
    } else {
        s
    }
}

/// `s` without its leading and trailing white space.
pub open spec fn trimmed(s: Seq<char>) -> Seq<char> {
    trim_end(trim_start(s))
}

/// `s` without the run of `c` that it ends in.
pub open spec fn trim_end_char(s: Seq<char>, c: char) -> Seq<char>
    decreases s.len(),
{
    if s.len() > 0 && s.last() == c {
        trim_end_char(s.drop_last(), c)
    } else {
        s
    }
}

/// The first `n` characters of `s`, or all of them where there are fewer.
pub open spec fn at_most(s: Seq<char>, n: nat) -> Seq<char> {
    if s.len() <= n {
        s
    } else {
        s.take(n as int)
    }
}

/// `a` stands no later than `b` in the lexicographic order by code point.
pub open spec fn precedes(a: Seq<char>, b: Seq<char>) -> bool
    decreases a.len(),
{
    if a.len() == 0 {
        true
    } else if b.len() == 0 {
        false
    } else if a[0] == b[0] {
        precedes(a.skip(1), b.skip(1))
    } else {
        a[0] < b[0]
    }
}

/// Whether `c` is white space.
pub fn is_white_space(c: char) -> (r: bool)
    ensures
        r == is_white(c),
{
    ('\u{9}' <= c && c <= '\u{d}') || c == ' ' || c == '\u{85}' || c == '\u{a0}' || c == '\u{1680}'
        || ('\u{2000}' <= c && c <= '\u{200a}') || c == '\u{2028}' || c == '\u{2029}'
        || c == '\u{202f}' || c == '\u{205f}' || c == '\u{3000}'
}

/// Whether `s` has a white-space character anywhere.
pub fn contains_white_space(s: &str) -> (r: bool)
    ensures
        r == has_white(s@),
{
    let mut found = false;
    for c in it: s.chars()
        invariant
            it.seq() == s@,
            found == has_white(s@.take(it.index() as int)),
    {
        proof {
            let k = it.index() as int;
            let before = s@.take(k);
            let after = s@.take(k + 1);
            assert(after[k] == c);
            assert(forall|i: int| 0 <= i < k ==> before[i] == #[trigger] after[i]);
            if has_white(before) {
                let i = choose|i: int| 0 <= i < before.len() && is_white(#[trigger] before[i]);
                assert(is_white(after[i]));
            }
        }
        found = found || is_white_space(c);
    }
    assert(s@.take(s@.len() as int) == s@);
    found
}

/// `s` without its leading and trailing white space.
pub fn trim(s: &str) -> (r: &str)
    ensures
        r@ == trimmed(s@),
{
    let len = s.unicode_len();
    let mut from: usize = 0;
    assert(s@.skip(0) == s@);
    while from < len && is_white_space(s.get_char(from))
        invariant
            from <= len == s@.len(),
            trim_start(s@) == trim_start(s@.skip(from as int)),
        decreases len - from,
    {
        assert(s@.skip(from as int).skip(1) == s@.skip(from + 1));
        from = from + 1;
    }
    assert(trim_start(s@) == s@.skip(from as int));
    let mut to = len;
    assert(s@.subrange(from as int, to as int) == s@.skip(from as int));
    while from < to && is_white_space(s.get_char(to - 1))
        invariant
            from <= to <= len == s@.len(),
            trimmed(s@) == trim_end(s@.subrange(from as int, to as int)),
        decreases to - from,
    {
        assert(s@.subrange(from as int, to as int).drop_last() == s@.subrange(
            from as int,
            to - 1,
        ));
        to = to - 1;
    }
    s.substring_char(from, to)
}

/// `s` without the run of `c` that it ends in.
pub fn trim_trailing(s: &str, c: char) -> (r: &str)
    ensures
        r@ == trim_end_char(s@, c),
{
    let mut to = s.unicode_len();
    assert(s@.take(to as int) == s@);
    while 0 < to && s.get_char(to - 1) == c
        invariant
            to <= s@.len(),
            trim_end_char(s@, c) == trim_end_char(s@.take(to as int), c),
        decreases to,
    {
        assert(s@.take(to as int).drop_last() == s@.take(to - 1));
        to = to - 1;
    }
    assert(s@.subrange(0, to as int) == s@.take(to as int));
    s.substring_char(0, to)
}

/// The first `n` characters of `s`, or all of them where there are fewer.
pub fn first_chars(s: &str, n: usize) -> (r: &str)
    ensures
        r@ == at_most(s@, n as nat),
{
    let len = s.unicode_len();
    if len <= n {
        s
    } else {
        assert(s@.subrange(0, n as int) == s@.take(n as int));
        s.substring_char(0, n)
    }
}

/// Whether `a` stands no later than `b` in the lexicographic order.
pub fn in_order(a: &str, b: &str) -> (r: bool)
    ensures
        r == precedes(a@, b@),
{
    let a_len = a.unicode_len();
    let b_len = b.unicode_len();
    let mut i: usize = 0;
    assert(a@.skip(0) == a@ && b@.skip(0) == b@);
    while i < a_len && i < b_len
        invariant
            i <= a_len == a@.len(),
            i <= b_len == b@.len(),
            precedes(a@, b@) == precedes(a@.skip(i as int), b@.skip(i as int)),
        decreases a_len - i,
    {
        let x = a.get_char(i);
        let y = b.get_char(i);
        if x != y {
            return x < y;
        }
        assert(a@.skip(i as int).skip(1) == a@.skip(i + 1));
        assert(b@.skip(i as int).skip(1) == b@.skip(i + 1));
        i = i + 1;
    }
    i == a_len
}

/// Text that neither begins nor ends in white space is its own trimmed form.
pub proof fn trimmed_of_tight(s: Seq<char>)
    requires
        s.len() > 0 ==> !is_white(s[0]) && !is_white(s.last()),
    ensures
        trimmed(s) == s,
{
}

/// Trimming takes white space off both ends, and nothing else: what is left
/// stands in `s` between two runs of white space, and neither begins nor ends
/// in white space.
pub proof fn trimmed_is_the_core(s: Seq<char>) -> (r: (Seq<char>, Seq<char>))
    ensures
        s == r.0 + trimmed(s) + r.1,
        all_white(r.0),
        all_white(r.1),
        trimmed(s).len() > 0 ==> !is_white(trimmed(s)[0]) && !is_white(trimmed(s).last()),
{
    let head = trim_start_head(s);
    let tail = trim_end_tail(trim_start(s));
    let core = trimmed(s);
    assert(s == head + core + tail);
    if core.len() > 0 {
        assert(trim_start(s)[0] == core[0]);
    }
    (head, tail)
}

proof fn trim_start_head(s: Seq<char>) -> (head: Seq<char>)
    ensures
        s == head + trim_start(s),
        all_white(head),
        trim_start(s).len() > 0 ==> !is_white(trim_start(s)[0]),
    decreases s.len(),
{
    if s.len() > 0 && is_white(s[0]) {
        let rest = trim_start_head(s.skip(1));
        let head = seq![s[0]] + rest;
        assert(s == seq![s[0]] + s.skip(1));
        assert(s == head + trim_start(s));
        head
    } else {
        assert(s == Seq::<char>::empty() + s);
        Seq::empty()
    }
}

proof fn trim_end_tail(s: Seq<char>) -> (tail: Seq<char>)
    ensures
        s == trim_end(s) + tail,
        all_white(tail),
        trim_end(s).len() > 0 ==> !is_white(trim_end(s).last()),
    decreases s.len(),
{
    if s.len() > 0 && is_white(s.last()) {
        let rest = trim_end_tail(s.drop_last());
        let tail = rest.push(s.last());
        assert(s == s.drop_last().push(s.last()));
        assert(s == trim_end(s) + tail);
        tail
    } else {
        assert(s == s + Seq::<char>::empty());
        Seq::empty()
    }
}

/// Trimming twice is trimming once.
pub proof fn trimmed_twice(s: Seq<char>)
    ensures
        trimmed(trimmed(s)) == trimmed(s),
{
    let _ = trimmed_is_the_core(s);
    trimmed_of_tight(trimmed(s));
}

/// White space put around a text does not change its trimmed form.
pub proof fn trimmed_ignores_padding(before: Seq<char>, s: Seq<char>, after: Seq<char>)
    requires
        all_white(before),
        all_white(after),
    ensures
        trimmed(before + s + after) == trimmed(s),
{
    trim_start_padded(before, s + after);
    assert(before + s + after == before + (s + after));
    trim_end_padded_after_start(s, after);
}

proof fn trim_start_padded(before: Seq<char>, s: Seq<char>)
    requires
        all_white(before),
    ensures
        trim_start(before + s) == trim_start(s),
    decreases before.len(),
{
    if before.len() > 0 {
        assert((before + s)[0] == before[0]);
        assert((before + s).skip(1) == before.skip(1) + s);
        trim_start_padded(before.skip(1), s);
    } else {
        assert(before + s == s);
    }
}

proof fn trim_end_padded(s: Seq<char>, after: Seq<char>)
    requires
        all_white(after),
    ensures
        trim_end(s + after) == trim_end(s),
    decreases after.len(),
{
    if after.len() > 0 {
        assert((s + after).last() == after.last());
        assert((s + after).drop_last() == s + after.drop_last());
        trim_end_padded(s, after.drop_last());
    } else {
        assert(s + after == s);
    }
}

proof fn trim_end_padded_after_start(s: Seq<char>, after: Seq<char>)
    requires
        all_white(after),
    ensures
        trim_end(trim_start(s + after)) == trim_end(trim_start(s)),
    decreases s.len(),
{
    if s.len() == 0 {
        assert(s + after == after + Seq::<char>::empty());
        trim_start_padded(after, Seq::empty());
    } else if is_white(s[0]) {
        assert((s + after)[0] == s[0]);
        assert((s + after).skip(1) == s.skip(1) + after);
        trim_end_padded_after_start(s.skip(1), after);
    } else {
        assert((s + after)[0] == s[0]);
        trim_end_padded(s, after);
    }
}

/// Nothing is left of a text exactly where all of it is white space.
pub proof fn trimmed_of_blank(s: Seq<char>)
    ensures
        trimmed(s).len() == 0 <==> all_white(s),
{
    let (head, tail) = trimmed_is_the_core(s);
    let core = trimmed(s);
    if core.len() > 0 {
        assert(s[head.len() as int] == core[0]);
    } else {
        assert forall|i: int| 0 <= i < s.len() implies is_white(#[trigger] s[i]) by {
            if i < head.len() {
                assert(s[i] == head[i]);
            } else {
                assert(s[i] == tail[i - head.len()]);
            }
        }
    }
}

/// A run of `c` put behind a text does not change what is left of it without
/// the run of `c` that it ends in; and that never ends in `c`.
pub proof fn trim_end_char_ignores_run(s: Seq<char>, c: char, run: Seq<char>)
    requires
        forall|i: int| 0 <= i < run.len() ==> #[trigger] run[i] == c,
    ensures
        trim_end_char(s + run, c) == trim_end_char(s, c),
        trim_end_char(s, c).len() > 0 ==> trim_end_char(s, c).last() != c,
    decreases run.len() + s.len(),
{
    if run.len() > 0 {
        assert((s + run).last() == run.last());
        assert((s + run).drop_last() == s + run.drop_last());
        trim_end_char_ignores_run(s, c, run.drop_last());
    } else {
        assert(s + run == s);
        if s.len() > 0 && s.last() == c {
            trim_end_char_ignores_run(s.drop_last(), c, run);
        }
    }
}

/// Every text stands no later than itself.
pub proof fn precedes_reflexive(a: Seq<char>)
    ensures
        precedes(a, a),
    decreases a.len(),
{
    if a.len() > 0 {
        precedes_reflexive(a.skip(1));
    }
}

/// Of two texts, one stands no later than the other.
pub proof fn precedes_total(a: Seq<char>, b: Seq<char>)
    ensures
        precedes(a, b) || precedes(b, a),
    decreases a.len(),
{
    if a.len() > 0 && b.len() > 0 && a[0] == b[0] {
        precedes_total(a.skip(1), b.skip(1));
    }
}

/// Two texts of which each stands no later than the other are the same.
pub proof fn precedes_antisymmetric(a: Seq<char>, b: Seq<char>)
    requires
        precedes(a, b),
        precedes(b, a),
    ensures
        a == b,
    decreases a.len(),
{
    if a.len() > 0 && b.len() > 0 {
        precedes_antisymmetric(a.skip(1), b.skip(1));
        assert(a == seq![a[0]] + a.skip(1));
        assert(b == seq![b[0]] + b.skip(1));
    }
}

/// The order of texts is transitive.
pub proof fn precedes_transitive(a: Seq<char>, b: Seq<char>, c: Seq<char>)
    requires
        precedes(a, b),
        precedes(b, c),
    ensures
        precedes(a, c),
    decreases a.len(),
{
    if a.len() > 0 && a[0] == b[0] && b[0] == c[0] {
        precedes_transitive(a.skip(1), b.skip(1), c.skip(1));
    }
}

/// White space, by code point.
pub proof fn white_space_by_code_point(c: char)
    ensures
        is_white(c) <==> ({
            let n = c as int;
            ||| 9 <= n <= 13
            ||| n == 32
            ||| n == 133
            ||| n == 160
            ||| n == 5760
            ||| 8192 <= n <= 8202
            ||| n == 8232
            ||| n == 8233
            ||| n == 8239
            ||| n == 8287
            ||| n == 12288
        }),
{
}

/// One white-space character is enough, wherever it stands and whatever stands
/// around it; and text put together from parts without any has none.
pub proof fn white_space_anywhere_counts(before: Seq<char>, c: char, after: Seq<char>)
    ensures
        has_white(before + seq![c] + after) <==> has_white(before) || is_white(c) || has_white(
            after,
        ),
        !has_white(Seq::empty()),
{
    let whole = before + seq![c] + after;
    assert(whole[before.len() as int] == c);
    if has_white(before) {
        let i = choose|i: int| 0 <= i < before.len() && is_white(#[trigger] before[i]);
        assert(is_white(whole[i]));
    }
    if has_white(after) {
        let i = choose|i: int| 0 <= i < after.len() && is_white(#[trigger] after[i]);
        assert(is_white(whole[before.len() + 1 + i]));
    }
    if has_white(whole) {
        let i = choose|i: int| 0 <= i < whole.len() && is_white(#[trigger] whole[i]);
        if i < before.len() {
            assert(is_white(before[i]));
        } else if i > before.len() {
            assert(is_white(after[i - before.len() - 1]));
        }
    }
}

/// All of a text is white space exactly where no character of it is anything
/// else.
pub proof fn all_white_leaves_nothing_out(s: Seq<char>)
    ensures
        all_white(s) <==> !exists|i: int| 0 <= i < s.len() && !is_white(#[trigger] s[i]),
{
}

/// However a text is cut into white space, a core that neither begins nor ends
/// in white space, and white space, that core is its trimmed form.
pub proof fn trimmed_is_any_core(before: Seq<char>, core: Seq<char>, after: Seq<char>)
    requires
        forall|i: int| 0 <= i < before.len() ==> is_white(#[trigger] before[i]),
        forall|i: int| 0 <= i < after.len() ==> is_white(#[trigger] after[i]),
        core.len() > 0 ==> !is_white(core[0]) && !is_white(core[core.len() - 1]),
    ensures
        trimmed(before + core + after) == core,
{
    trimmed_ignores_padding(before, core, after);
    trimmed_of_tight(core);
}

/// Nothing but a run of `c` is taken off the end of a text.
pub proof fn trim_end_char_takes_a_run(s: Seq<char>, c: char) -> (run: Seq<char>)
    ensures
        s == trim_end_char(s, c) + run,
        forall|i: int| 0 <= i < run.len() ==> #[trigger] run[i] == c,
        trim_end_char(s, c).len() > 0 ==> trim_end_char(s, c)[trim_end_char(s, c).len() - 1] != c,
    decreases s.len(),
{
    if s.len() > 0 && s.last() == c {
        let shorter = trim_end_char_takes_a_run(s.drop_last(), c);
        let run = shorter.push(c);
        assert(s == s.drop_last().push(c));
        assert(s == trim_end_char(s, c) + run);
        run
    } else {
        assert(s == s + Seq::<char>::empty());
        Seq::empty()
    }
}

/// The first `n` characters of a text begin it, and are `n` where there are as
/// many.
pub proof fn at_most_is_the_start(s: Seq<char>, n: nat)
    ensures
        at_most(s, n).len() == if s.len() < n {
            s.len()
        } else {
            n
        },
        forall|i: int| 0 <= i < at_most(s, n).len() ==> #[trigger] at_most(s, n)[i] == s[i],
{
}

/// Texts are told apart by the first character in which they differ, and the
/// one with the lower code point there comes first, whatever follows.
pub proof fn precedes_by_first_difference(
    common: Seq<char>,
    x: char,
    y: char,
    a: Seq<char>,
    b: Seq<char>,
)
    requires
        (x as int) < (y as int),
    ensures
        precedes(common + seq![x] + a, common + seq![y] + b),
        !precedes(common + seq![y] + b, common + seq![x] + a),
    decreases common.len(),
{
    let lower = common + seq![x] + a;
    let upper = common + seq![y] + b;
    if common.len() == 0 {
        assert(lower[0] == x && upper[0] == y);
    } else {
        assert(lower[0] == common[0] && upper[0] == common[0]);
        assert(lower.skip(1) == common.skip(1) + seq![x] + a);
        assert(upper.skip(1) == common.skip(1) + seq![y] + b);
        precedes_by_first_difference(common.skip(1), x, y, a, b);
    }
}

/// A text comes before what it begins.
pub proof fn precedes_longer(s: Seq<char>, rest: Seq<char>)
    ensures
        precedes(s, s + rest),
        rest.len() > 0 ==> !precedes(s + rest, s),
    decreases s.len(),
{
    if s.len() > 0 {
        assert((s + rest)[0] == s[0]);
        assert((s + rest).skip(1) == s.skip(1) + rest);
        precedes_longer(s.skip(1), rest);
    }
}

/// Two texts in order: the first begins the second, or has the lower code
/// point where they first differ.
pub proof fn precedes_at_first_difference(a: Seq<char>, b: Seq<char>)
    requires
        precedes(a, b),
    ensures
        a.is_prefix_of(b) || exists|k: int|
            0 <= k < a.len() && k < b.len() && (forall|i: int| 0 <= i < k ==> a[i] == b[i])
                && (#[trigger] a[k] as int) < (b[k] as int),
    decreases a.len(),
{
    if a.len() > 0 && a[0] == b[0] {
        let c = a.skip(1);
        let d = b.skip(1);
        precedes_at_first_difference(c, d);
        if c.is_prefix_of(d) {
            assert forall|i: int| 0 <= i < a.len() implies a[i] == b[i] by {
                if i > 0 {
                    assert(c[i - 1] == d[i - 1]);
                }
            }
            assert(a =~= b.subrange(0, a.len() as int));
        } else {
            let k = choose|k: int|
                0 <= k < c.len() && k < d.len() && (forall|i: int| 0 <= i < k ==> c[i] == d[i])
                    && (#[trigger] c[k] as int) < (d[k] as int);
            assert forall|i: int| 0 <= i < k + 1 implies a[i] == b[i] by {
                if i > 0 {
                    assert(c[i - 1] == d[i - 1]);
                }
            }
            assert((a[k + 1] as int) < (b[k + 1] as int));
        }
    } else if a.len() > 0 {
        assert((a[0] as int) < (b[0] as int));
    } else {
        assert(a =~= b.subrange(0, 0));
    }
}

} // verus!
