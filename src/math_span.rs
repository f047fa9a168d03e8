//! Inline math spans: finding the delimiter pairs of a text and replacing each span
//! by a markup fragment.
use crate::text::{chars_of, find_char, lemma_next_char, lemma_prefix_next_char, next_char};
use vstd::prelude::*;

verus! {

/// The character that opens and closes an inline math span.
pub const DELIMITER: char = '$';

/// Position of the first delimiter at or after `from`, or `s.len()` when none follows.
pub open spec fn next_delimiter(s: Seq<char>, from: int) -> int {
    next_char(s, DELIMITER, from)
}

pub proof fn lemma_next_delimiter(s: Seq<char>, from: int)
    requires
        0 <= from <= s.len(),
    ensures
        from <= next_delimiter(s, from) <= s.len(),
        next_delimiter(s, from) < s.len() ==> s[next_delimiter(s, from)] == DELIMITER,
        forall|k: int| from <= k < next_delimiter(s, from) ==> s[k] != DELIMITER,
{
    lemma_next_char(s, DELIMITER, from);
}

/// The math payloads of `s` from `pos` on: delimiters are paired first with second,
/// third with fourth, and so on, and each payload is the text strictly between a pair.
/// A last delimiter without a partner opens no payload.
pub open spec fn payloads_from(s: Seq<char>, pos: int) -> Seq<Seq<char>>
    decreases s.len() - pos,
{
    if pos < 0 || pos >= s.len() {
        seq![]
    } else {
        let open = next_delimiter(s, pos);
        if open >= s.len() {
            seq![]
        } else {
            let close = next_delimiter(s, open + 1);
            if close >= s.len() {
                seq![]
            } else {
                proof {
                    lemma_next_delimiter(s, pos);
                    lemma_next_delimiter(s, open + 1);
                }
                seq![s.subrange(open + 1, close)] + payloads_from(s, close + 1)
            }
        }
    }
}

/// The math payloads of the whole text, in document order.
pub open spec fn payloads(s: Seq<char>) -> Seq<Seq<char>> {
    payloads_from(s, 0)
}

/// The text of `s` from `pos` on with the paired span starting at each pair of
/// delimiters replaced by the matching element of `frags`, in order. Literal text is
/// kept; a last delimiter without a partner is dropped and the text after it kept.
pub open spec fn extract_from(s: Seq<char>, pos: int, frags: Seq<Seq<char>>) -> Seq<char>
    decreases s.len() - pos,
{
    if pos < 0 || pos >= s.len() {
        seq![]
    } else {
        let open = next_delimiter(s, pos);
        if open >= s.len() {
            s.subrange(pos, s.len() as int)
        } else {
            let close = next_delimiter(s, open + 1);
            if close >= s.len() {
                s.subrange(pos, open) + s.subrange(open + 1, s.len() as int)
            } else {
                proof {
                    lemma_next_delimiter(s, pos);
                    lemma_next_delimiter(s, open + 1);
                }
                s.subrange(pos, open) + frags[0] + extract_from(s, close + 1, frags.drop_first())
            }
        }
    }
}

/// The whole text with its math spans replaced by `frags`, in document order.
pub open spec fn extracted(s: Seq<char>, frags: Seq<Seq<char>>) -> Seq<char> {
    extract_from(s, 0, frags)
}

/// Positions of the delimiters of `s` at or after `pos`, in increasing order.
pub open spec fn delimiters_from(s: Seq<char>, pos: int) -> Seq<int>
    decreases s.len() - pos,
{
    if pos < 0 || pos >= s.len() {
        seq![]
    } else if s[pos] == DELIMITER {
        seq![pos] + delimiters_from(s, pos + 1)
    } else {
        delimiters_from(s, pos + 1)
    }
}

/// Positions of all delimiters of `s`, in increasing order.
pub open spec fn delimiters(s: Seq<char>) -> Seq<int> {
    delimiters_from(s, 0)
}

proof fn lemma_no_delimiter_before(s: Seq<char>, from: int, end: int)
    requires
        0 <= from <= end <= s.len(),
        end < s.len() ==> s[end] == DELIMITER,
        forall|k: int| from <= k < end ==> s[k] != DELIMITER,
    ensures
        next_delimiter(s, from) == end,
{
    lemma_next_delimiter(s, from);
    let r = next_delimiter(s, from);
    if r < end {
        assert(s[r] != DELIMITER);
    } else if r > end {
        assert(s[end] != DELIMITER);
    }
}

proof fn lemma_delimiters_step(s: Seq<char>, pos: int)
    requires
        0 <= pos <= s.len(),
    ensures
        next_delimiter(s, pos) < s.len() ==> delimiters_from(s, pos) == seq![next_delimiter(s, pos)]
            + delimiters_from(s, next_delimiter(s, pos) + 1),
        next_delimiter(s, pos) >= s.len() ==> delimiters_from(s, pos) == Seq::<int>::empty(),
    decreases s.len() - pos,
{
    if pos < s.len() && s[pos] != DELIMITER {
        lemma_delimiters_step(s, pos + 1);
    }
}

proof fn lemma_delimiters_from(s: Seq<char>, pos: int)
    requires
        0 <= pos <= s.len(),
    ensures
        forall|k: int|
            0 <= k < delimiters_from(s, pos).len() ==> pos <= #[trigger] delimiters_from(s, pos)[k]
                < s.len() && s[delimiters_from(s, pos)[k]] == DELIMITER,
        forall|k: int, m: int|
            0 <= k < m < delimiters_from(s, pos).len() ==> #[trigger] delimiters_from(s, pos)[k]
                < #[trigger] delimiters_from(s, pos)[m],
        forall|j: int|
            pos <= j < s.len() && s[j] == DELIMITER ==> #[trigger] delimiters_from(s, pos).contains(
                j,
            ),
        delimiters_from(s, pos).len() == 0 ==> forall|j: int|
            pos <= j < s.len() ==> s[j] != DELIMITER,
        delimiters_from(s, pos).len() > 0 ==> forall|j: int|
            delimiters_from(s, pos).last() < j < s.len() ==> s[j] != DELIMITER,
    decreases s.len() - pos,
{
    if pos < s.len() {
        lemma_delimiters_from(s, pos + 1);
        let d = delimiters_from(s, pos);
        let rest = delimiters_from(s, pos + 1);
        if s[pos] == DELIMITER {
            assert forall|k: int| 0 <= k < d.len() implies pos <= #[trigger] d[k] < s.len()
                && s[d[k]] == DELIMITER by {
                if k > 0 {
                    assert(d[k] == rest[k - 1]);
                }
            }
            assert forall|k: int, m: int| 0 <= k < m < d.len() implies #[trigger] d[k]
                < #[trigger] d[m] by {
                assert(d[m] == rest[m - 1]);
                if k > 0 {
                    assert(d[k] == rest[k - 1]);
                }
            }
            assert forall|j: int| pos <= j < s.len() && s[j] == DELIMITER implies #[trigger] d.contains(j) by {
                if j == pos {
                    assert(d[0] == j);
                } else {
                    assert(rest.contains(j));
                    let k = choose|k: int| 0 <= k < rest.len() && rest[k] == j;
                    assert(d[k + 1] == j);
                }
            }
            if rest.len() > 0 {
                assert(d.last() == rest.last());
            }
        }
    }
}

proof fn lemma_pairing_from(s: Seq<char>, pos: int)
    requires
        0 <= pos <= s.len(),
    ensures
        payloads_from(s, pos).len() == delimiters_from(s, pos).len() / 2,
        forall|i: int|
            0 <= i < payloads_from(s, pos).len() ==> #[trigger] payloads_from(s, pos)[i]
                == s.subrange(
                delimiters_from(s, pos)[2 * i] + 1,
                delimiters_from(s, pos)[2 * i + 1],
            ),
    decreases s.len() - pos,
{
    lemma_next_delimiter(s, pos);
    lemma_delimiters_step(s, pos);
    if pos < s.len() {
        let open = next_delimiter(s, pos);
        if open < s.len() {
            lemma_next_delimiter(s, open + 1);
            lemma_delimiters_step(s, open + 1);
            let close = next_delimiter(s, open + 1);
            if close < s.len() {
                lemma_pairing_from(s, close + 1);
                let d = delimiters_from(s, pos);
                let rest = delimiters_from(s, close + 1);
                assert(d =~= seq![open, close] + rest);
                let p = payloads_from(s, pos);
                let pr = payloads_from(s, close + 1);
                assert(p == seq![s.subrange(open + 1, close)] + pr);
                assert forall|i: int| 0 <= i < p.len() implies #[trigger] p[i] == s.subrange(
                    d[2 * i] + 1,
                    d[2 * i + 1],
                ) by {
                    if i > 0 {
                        assert(p[i] == pr[i - 1]);
                        assert(d[2 * i] == rest[2 * (i - 1)]);
                        assert(d[2 * i + 1] == rest[2 * (i - 1) + 1]);
                    }
                }
            }
        }
    }
}

/// Delimiters pair in order of position, the first with the second, the third with
/// the fourth, and so on: a text with `2k` or `2k + 1` delimiters has exactly `k`
/// payloads, and the `i`-th lies strictly between delimiters `2i` and `2i + 1`.
/// `delimiters(s)` lists every delimiter position of `s` once, in increasing order.
pub proof fn lemma_sequential_pairing(s: Seq<char>)
    ensures
        payloads(s).len() == delimiters(s).len() / 2,
        forall|i: int|
            0 <= i < payloads(s).len() ==> #[trigger] payloads(s)[i] == s.subrange(
                delimiters(s)[2 * i] + 1,
                delimiters(s)[2 * i + 1],
            ),
        forall|k: int|
            0 <= k < delimiters(s).len() ==> 0 <= #[trigger] delimiters(s)[k] < s.len()
                && s[delimiters(s)[k]] == DELIMITER,
        forall|k: int, m: int|
            0 <= k < m < delimiters(s).len() ==> #[trigger] delimiters(s)[k]
                < #[trigger] delimiters(s)[m],
        forall|j: int|
            0 <= j < s.len() && s[j] == DELIMITER ==> #[trigger] delimiters(s).contains(j),
{
    lemma_pairing_from(s, 0);
    lemma_delimiters_from(s, 0);
}

/// A text without delimiters has no payloads, and extraction leaves it unchanged.
pub proof fn lemma_plain_text_unchanged(s: Seq<char>, frags: Seq<Seq<char>>)
    requires
        forall|i: int| 0 <= i < s.len() ==> s[i] != DELIMITER,
    ensures
        payloads(s) == Seq::<Seq<char>>::empty(),
        extracted(s, frags) == s,
{
    lemma_no_delimiter_before(s, 0, s.len() as int);
    assert(s.subrange(0, s.len() as int) =~= s);
}

/// A text with exactly two delimiters, at `i` and `j`, has the one payload between
/// them, and extraction puts the first fragment in place of `s[i..=j]`, keeping the
/// text before `i` and after `j`.
pub proof fn lemma_single_span(s: Seq<char>, i: int, j: int, frags: Seq<Seq<char>>)
    requires
        0 <= i,
        i + 1 < j < s.len(),
        s[i] == DELIMITER,
        s[j] == DELIMITER,
        forall|k: int| 0 <= k < s.len() && k != i && k != j ==> s[k] != DELIMITER,
    ensures
        payloads(s) == seq![s.subrange(i + 1, j)],
        extracted(s, frags) == s.subrange(0, i) + frags[0] + s.subrange(j + 1, s.len() as int),
{
    lemma_no_delimiter_before(s, 0, i);
    lemma_no_delimiter_before(s, i + 1, j);
    lemma_no_delimiter_before(s, j + 1, s.len() as int);
    assert(payloads_from(s, j + 1) =~= Seq::<Seq<char>>::empty());
    assert(payloads(s) =~= seq![s.subrange(i + 1, j)]);
    if j + 1 < s.len() {
        assert(extract_from(s, j + 1, frags.drop_first()) == s.subrange(j + 1, s.len() as int));
    } else {
        assert(extract_from(s, j + 1, frags.drop_first()) =~= s.subrange(j + 1, s.len() as int));
    }
}

proof fn lemma_unpaired_from(s: Seq<char>, pos: int, l: int, frags: Seq<Seq<char>>)
    requires
        0 <= pos <= l < s.len(),
        s[l] == DELIMITER,
        forall|k: int| l < k < s.len() ==> s[k] != DELIMITER,
        delimiters_from(s, pos).len() % 2 == 1,
    ensures
        payloads_from(s, pos) == payloads_from(s.subrange(0, l), pos),
        extract_from(s, pos, frags) == extract_from(s.subrange(0, l), pos, frags) + s.subrange(
            l + 1,
            s.len() as int,
        ),
    decreases s.len() - pos,
{
    let t = s.subrange(0, l);
    lemma_next_delimiter(s, pos);
    lemma_delimiters_step(s, pos);
    lemma_prefix_next_char(s, DELIMITER, l, pos);
    let open = next_delimiter(s, pos);
    if open > l {
        assert(s[l] != DELIMITER);
    }
    lemma_no_delimiter_before(s, l + 1, s.len() as int);
    lemma_delimiters_step(s, l + 1);
    if open == l {
        if pos < l {
            assert(extract_from(t, pos, frags) == t.subrange(pos, l));
        } else {
            assert(extract_from(t, pos, frags) =~= Seq::<char>::empty());
        }
        assert(t.subrange(pos, l) =~= s.subrange(pos, l));
        assert(payloads_from(t, pos) =~= Seq::<Seq<char>>::empty());
        assert(extract_from(s, pos, frags) =~= extract_from(t, pos, frags) + s.subrange(
            l + 1,
            s.len() as int,
        ));
    } else {
        lemma_next_delimiter(s, open + 1);
        lemma_delimiters_step(s, open + 1);
        lemma_prefix_next_char(s, DELIMITER, l, open + 1);
        let close = next_delimiter(s, open + 1);
        if close > l {
            assert(s[l] != DELIMITER);
        }
        if close == l {
            assert(delimiters_from(s, pos) =~= seq![open, l]);
        }
        assert(close < l);
        assert(delimiters_from(s, pos) =~= seq![open, close] + delimiters_from(s, close + 1));
        lemma_unpaired_from(s, close + 1, l, frags.drop_first());
        assert(t.subrange(pos, open) =~= s.subrange(pos, open));
        assert(t.subrange(open + 1, close) =~= s.subrange(open + 1, close));
        assert(payloads_from(s, pos) == seq![s.subrange(open + 1, close)] + payloads_from(
            s,
            close + 1,
        ));
        assert(payloads_from(t, pos) == seq![t.subrange(open + 1, close)] + payloads_from(
            t,
            close + 1,
        ));
        assert(extract_from(s, pos, frags) =~= extract_from(t, pos, frags) + s.subrange(
            l + 1,
            s.len() as int,
        ));
    }
}

/// With an odd number of delimiters the last one opens no span: the payloads are
/// those of the text before it, the delimiter itself is dropped, and the text after it
/// is kept as literal text.
pub proof fn lemma_unpaired_last_delimiter(s: Seq<char>, frags: Seq<Seq<char>>)
    requires
        delimiters(s).len() % 2 == 1,
    ensures
        payloads(s) == payloads(s.subrange(0, delimiters(s).last())),
        extracted(s, frags) == extracted(s.subrange(0, delimiters(s).last()), frags)
            + s.subrange(delimiters(s).last() + 1, s.len() as int),
{
    lemma_delimiters_from(s, 0);
    let d = delimiters(s);
    assert(0 <= d[d.len() - 1] < s.len());
    lemma_unpaired_from(s, 0, d.last(), frags);
}

/// The views of a list of strings.
pub open spec fn views_of(v: Seq<String>) -> Seq<Seq<char>> {
    v.map_values(|x: String| x@)
}

/// The math payloads of `text`, in document order: the text between the first and
/// second delimiter, between the third and fourth, and so on.
pub fn payload_list(text: &str) -> (r: Vec<String>)
    ensures
        views_of(r@) == payloads(text@),
{
    let cs = chars_of(text);
    let n = cs.len();
    let mut r: Vec<String> = Vec::new();
    let mut pos: usize = 0;
    while pos < n
        invariant
            n == cs.len(),
            cs@ == text@,
            pos <= n,
            views_of(r@) + payloads_from(cs@, pos as int) == payloads(cs@),
        decreases n - pos,
    {
        let open = find_char(&cs, DELIMITER, pos);
        if open == n {
            assert(views_of(r@) =~= payloads(cs@));
            return r;
        }
        let close = find_char(&cs, DELIMITER, open + 1);
        if close == n {
            assert(views_of(r@) =~= payloads(cs@));
            return r;
        }
        let p = text.substring_char(open + 1, close);
        let ghost before = views_of(r@);
        r.push(p.to_string());
        assert(views_of(r@) =~= before.push(p@));
        assert(views_of(r@) + payloads_from(cs@, close + 1) =~= before + payloads_from(cs@, pos as int));
        pos = close + 1;
    }
    assert(views_of(r@) =~= payloads(cs@));
    r
}

/// `text` with each math span, delimiters included, replaced by the matching element
/// of `fragments`: the first span by the first fragment, and so on. Text outside the
/// spans is kept as it is; a last delimiter without a partner is dropped.
pub fn extract_with(text: &str, fragments: &Vec<String>) -> (r: String)
    requires
        fragments.len() == payloads(text@).len(),
    ensures
        r@ == extracted(text@, views_of(fragments@)),
{
    let cs = chars_of(text);
    let n = cs.len();
    let ghost frags = views_of(fragments@);
    let mut out = String::new();
    let mut pos: usize = 0;
    let mut k: usize = 0;
    assert(frags.skip(0) =~= frags);
    assert(out@ + extract_from(cs@, 0, frags) =~= extracted(cs@, frags));
    while pos < n
        invariant
            n == cs.len(),
            cs@ == text@,
            pos <= n,
            k <= fragments.len(),
            frags == views_of(fragments@),
            payloads_from(cs@, pos as int).len() == fragments.len() - k,
            out@ + extract_from(cs@, pos as int, frags.skip(k as int)) == extracted(cs@, frags),
        decreases n - pos,
    {
        let open = find_char(&cs, DELIMITER, pos);
        if open == n {
            out.append(text.substring_char(pos, n));
            return out;
        }
        let close = find_char(&cs, DELIMITER, open + 1);
        if close == n {
            out.append(text.substring_char(pos, open));
            out.append(text.substring_char(open + 1, n));
            return out;
        }
        let ghost before = out@;
        out.append(text.substring_char(pos, open));
        out.append(fragments[k].as_str());
        assert(frags.skip(k as int).drop_first() =~= frags.skip(k + 1));
        assert(frags.skip(k as int)[0] == fragments@[k as int]@);
        assert(out@ + extract_from(cs@, close + 1, frags.skip(k + 1)) =~= before + extract_from(cs@, pos as int, frags.skip(k as int)));
        k = k + 1;
        pos = close + 1;
    }
    out
}

} // verus!
