//! Small text helpers: decimal numerals and searching a character.
use vstd::prelude::*;

verus! {

/// The ten decimal digits, in order.
pub open spec fn digit_chars() -> Seq<char> {
    seq!['0', '1', '2', '3', '4', '5', '6', '7', '8', '9']
}

/// The decimal numeral of a natural number, without leading zeros.
pub open spec fn digits_of(n: nat) -> Seq<char>
    decreases n,
{
    if n < 10 {
        seq![digit_chars()[n as int]]
    } else {
        digits_of(n / 10) + seq![digit_chars()[(n % 10) as int]]
    }
}

/// The decimal numeral of an integer, with a leading `-` when it is negative.
pub open spec fn decimal_of(n: int) -> Seq<char> {
    if n < 0 {
        seq!['-'] + digits_of((-n) as nat)
    } else {
        digits_of(n as nat)
    }
}

/// Position of the first `c` in `s` at or after `from`, or `s.len()` when none follows.
pub open spec fn next_char(s: Seq<char>, c: char, from: int) -> int
    decreases s.len() - from,
{
    if from < 0 || from >= s.len() {
        s.len() as int
    } else if s[from] == c {
        from
    } else {
        next_char(s, c, from + 1)
    }
}

pub proof fn lemma_next_char(s: Seq<char>, c: char, from: int)
    requires
        0 <= from <= s.len(),
    ensures
        from <= next_char(s, c, from) <= s.len(),
        next_char(s, c, from) < s.len() ==> s[next_char(s, c, from)] == c,
        forall|k: int| from <= k < next_char(s, c, from) ==> s[k] != c,
    decreases s.len() - from,
{
    if from < s.len() && s[from] != c {
        lemma_next_char(s, c, from + 1);
    }
}

/// Searching a prefix finds what searching the whole text finds, when that lies in
/// the prefix, and otherwise the prefix's end.
pub proof fn lemma_prefix_next_char(s: Seq<char>, c: char, l: int, from: int)
    requires
        0 <= from <= l <= s.len(),
    ensures
        next_char(s, c, from) < l ==> next_char(s.subrange(0, l), c, from) == next_char(s, c, from),
        next_char(s, c, from) >= l ==> next_char(s.subrange(0, l), c, from) == l,
    decreases l - from,
{
    lemma_next_char(s, c, from);
    if from < l && s[from] != c {
        lemma_prefix_next_char(s, c, l, from + 1);
    }
}

/// Collects the characters of a text into a vector.
pub fn chars_of(text: &str) -> (r: Vec<char>)
    ensures
        r@ == text@,
{
    let mut r: Vec<char> = Vec::new();
    for c in it: text.chars()
        invariant
            r@ == it.seq().subrange(0, it.index() as int),
    {
        r.push(c);
    }
    r
}

/// Position of the first `c` in `cs` at or after `from`, or `cs.len()`.
pub fn find_char(cs: &Vec<char>, c: char, from: usize) -> (r: usize)
    requires
        from <= cs.len(),
    ensures
        r as int == next_char(cs@, c, from as int),
        from <= r <= cs.len(),
{
    proof {
        lemma_next_char(cs@, c, from as int);
    }
    let mut i = from;
    while i < cs.len()
        invariant
            from <= i <= cs.len(),
            next_char(cs@, c, from as int) == next_char(cs@, c, i as int),
        decreases cs.len() - i,
    {
        if cs[i] == c {
            return i;
        }
        i = i + 1;
    }
    i
}

fn digit_text(d: u64) -> (r: &'static str)
    requires
        d < 10,
    ensures
        r@ == seq![digit_chars()[d as int]],
{
    proof {
        reveal_strlit("0");
        reveal_strlit("1");
        reveal_strlit("2");
        reveal_strlit("3");
        reveal_strlit("4");
        reveal_strlit("5");
        reveal_strlit("6");
        reveal_strlit("7");
        reveal_strlit("8");
        reveal_strlit("9");
    }
    match d {
        0 => "0",
        1 => "1",
        2 => "2",
        3 => "3",
        4 => "4",
        5 => "5",
        6 => "6",
        7 => "7",
        8 => "8",
        _ => "9",
    }
}

fn push_digits(out: &mut String, n: u64)
    ensures
        final(out)@ == old(out)@ + digits_of(n as nat),
    decreases n,
{
    if n >= 10 {
        push_digits(out, n / 10);
    }
    out.append(digit_text(n % 10));
    assert(out@ =~= old(out)@ + digits_of(n as nat));
}

/// The decimal numeral of `n`.
pub fn decimal_text(n: i64) -> (r: String)
    ensures
        r@ == decimal_of(n as int),
{
    let mut out = String::new();
    if n < 0 {
        proof {
            reveal_strlit("-");
        }
        out.append("-");
        let m: u64 = (-(n + 1)) as u64 + 1;
        push_digits(&mut out, m);
    } else {
        push_digits(&mut out, n as u64);
    }
    out
}

} // verus!
