use vstd::prelude::*;

use crate::text::{chars_of, is_space, is_space_char};

verus! {

/// `s` without its leading whitespace.
pub open spec fn strip_front(s: Seq<char>) -> Seq<char>
    decreases s.len(),
{
    if s.len() > 0 && is_space(s[0]) {
        strip_front(s.drop_first())
    } else {
        s
    }
}

/// `s` without its trailing whitespace.
pub open spec fn strip_back(s: Seq<char>) -> Seq<char>
    decreases s.len(),
{
    if s.len() > 0 && is_space(s.last()) {
        strip_back(s.drop_last())
    } else {
        s
    }
}

/// `str::trim`: `s` without leading and trailing whitespace.
pub open spec fn trimmed(s: Seq<char>) -> Seq<char> {
    strip_back(strip_front(s))
}

pub open spec fn is_digit(c: char) -> bool {
    '0' <= c <= '9'
}

/// The number that the decimal digits `d` spell, most significant first.
pub open spec fn dec_value(d: Seq<char>) -> nat
    decreases d.len(),
{
    if d.len() == 0 {
        0
    } else {
        dec_value(d.drop_last()) * 10 + (d.last() as nat - '0' as nat) as nat
    }
}

/// `usize`'s `FromStr`: an optional `+`, then one or more decimal digits
/// whose value fits in a `usize`.
pub open spec fn parse_index(s: Seq<char>) -> Option<usize> {
    digits_index(unsigned_digits(s))
}

/// `s` without one leading `+`.
pub open spec fn unsigned_digits(s: Seq<char>) -> Seq<char> {
    if s.len() > 0 && s[0] == '+' {
        s.drop_first()
    } else {
        s
    }
}

/// The value of the decimal digits `d`, where it is one and fits a `usize`.
pub open spec fn digits_index(d: Seq<char>) -> Option<usize> {
    if d.len() > 0 && (forall|i: int| 0 <= i < d.len() ==> #[trigger] is_digit(d[i])) && dec_value(
        d,
    ) <= usize::MAX {
        Some(dec_value(d) as usize)
    } else {
        None
    }
}

/// What one answer to the index prompt decides.
#[derive(Debug, Clone, Copy, PartialEq, Eq)]
pub enum Inquiry {
    /// There is nothing to choose from.
    NoChoices,
    /// Input has ended: no choice will come.
    Exhausted,
    /// This index is chosen.
    Chosen(usize),
    /// The index is past the last choice: ask again.
    OutOfRange(usize),
    /// The answer is not an index: ask again.
    Invalid,
}

/// The decision for the answer `line` (`None` at end of input) when there
/// are `count` choices: an empty answer picks the first choice.
pub open spec fn inquiry_of(line: Option<Seq<char>>, count: nat) -> Inquiry {
    if count == 0 {
        Inquiry::NoChoices
    } else {
        match line {
            None => Inquiry::Exhausted,
            Some(l) => match parse_index(trimmed(l)) {
                Some(i) => if i < count {
                    Inquiry::Chosen(i)
                } else {
                    Inquiry::OutOfRange(i)
                },
                None => if trimmed(l).len() == 0 {
                    Inquiry::Chosen(0)
                } else {
                    Inquiry::Invalid
                },
            },
        }
    }
}

proof fn lemma_dec_prefix_le(d: Seq<char>, j: int)
    requires
        0 <= j <= d.len(),
        forall|i: int| 0 <= i < d.len() ==> #[trigger] is_digit(d[i]),
    ensures
        dec_value(d.take(j)) <= dec_value(d),
    decreases d.len(),
{
    if j < d.len() {
        assert(d.drop_last().take(j) =~= d.take(j));
        assert forall|i: int| 0 <= i < d.drop_last().len() implies #[trigger] is_digit(
            d.drop_last()[i],
        ) by {
            assert(d.drop_last()[i] == d[i]);
        }
        lemma_dec_prefix_le(d.drop_last(), j);
    } else {
        assert(d.take(j) =~= d);
    }
}

/// The trimmed answer, parsed as an index.
fn parse_trimmed(t: &Vec<char>, lo: usize, hi: usize) -> (r: Option<usize>)
    requires
        lo <= hi <= t@.len(),
    ensures
        r == parse_index(t@.subrange(lo as int, hi as int)),
{
    let ghost s = t@.subrange(lo as int, hi as int);
    let start: usize = if lo < hi && t[lo] == '+' {
        lo + 1
    } else {
        lo
    };
    let ghost d = t@.subrange(start as int, hi as int);
    proof {
        if start == lo + 1 {
            assert(d =~= s.drop_first());
        } else {
            assert(d =~= s);
        }
    }
    if start >= hi {
        return None;
    }
    let mut acc: usize = 0;
    let mut j: usize = start;
    while j < hi
        invariant
            lo <= start <= j <= hi <= t@.len(),
            s == t@.subrange(lo as int, hi as int),
            d == t@.subrange(start as int, hi as int),
            d == unsigned_digits(s),
            d.len() > 0,
            acc == dec_value(d.take(j - start)),
            forall|i: int| 0 <= i < j - start ==> #[trigger] is_digit(d[i]),
        decreases hi - j,
    {
        let c = t[j];
        let ghost pre = d.take(j - start);
        let ghost next = d.take(j - start + 1);
        proof {
            assert(next.drop_last() =~= pre);
            assert(next.last() == c);
        }
        if !('0' <= c && c <= '9') {
            assert(!is_digit(d[j - start]));
            assert(!(forall|i: int| 0 <= i < d.len() ==> #[trigger] is_digit(d[i])));
            assert(digits_index(d) is None);
            return None;
        }
        let v = (c as u32 - '0' as u32) as usize;
        if acc > (usize::MAX - v) / 10 {
            proof {
                assert(acc * 10 + v > usize::MAX) by (nonlinear_arith)
                    requires
                        acc > (usize::MAX - v) / 10,
                        v < 10,
                {
                }
                assert(dec_value(next) == acc * 10 + v);
                if forall|i: int| 0 <= i < d.len() ==> #[trigger] is_digit(d[i]) {
                    lemma_dec_prefix_le(d, j - start + 1);
                    assert(dec_value(d) > usize::MAX);
                }
                assert(digits_index(d) is None);
            }
            return None;
        }
        assert(acc * 10 + v <= usize::MAX) by (nonlinear_arith)
            requires
                acc <= (usize::MAX - v) / 10,
                v < 10,
        {
        }
        acc = acc * 10 + v;
        j = j + 1;
    }
    proof {
        assert(d.take(hi - start) =~= d);
    }
    Some(acc)
}

/// Decides what the answer `line` to the index prompt means when there are
/// `count` choices (`line` is `None` at end of input).
pub fn inquire_index(line: Option<&str>, count: usize) -> (r: Inquiry)
    ensures
        r == inquiry_of(
            match line {
                Some(l) => Some(l@),
                None => None,
            },
            count as nat,
        ),
{
    if count == 0 {
        return Inquiry::NoChoices;
    }
    let l = match line {
        None => return Inquiry::Exhausted,
        Some(l) => l,
    };
    let t = chars_of(l);
    let n = t.len();
    let mut lo: usize = 0;
    proof {
        assert(t@.subrange(0, n as int) =~= t@);
    }
    while lo < n && is_space_char(t[lo])
        invariant
            lo <= n == t@.len(),
            strip_front(t@) == strip_front(t@.subrange(lo as int, n as int)),
        decreases n - lo,
    {
        proof {
            assert(t@.subrange(lo as int, n as int).drop_first() =~= t@.subrange(lo + 1, n as int));
        }
        lo = lo + 1;
    }
    let mut hi: usize = n;
    while hi > lo && is_space_char(t[hi - 1])
        invariant
            lo <= hi <= n == t@.len(),
            strip_front(t@) == t@.subrange(lo as int, n as int),
            trimmed(t@) == strip_back(t@.subrange(lo as int, hi as int)),
        decreases hi,
    {
        proof {
            assert(t@.subrange(lo as int, hi as int).drop_last() =~= t@.subrange(lo as int, hi - 1));
        }
        hi = hi - 1;
    }
    proof {
        assert(trimmed(t@) == t@.subrange(lo as int, hi as int));
    }
    match parse_trimmed(&t, lo, hi) {
        Some(i) => if i < count {
            Inquiry::Chosen(i)
        } else {
            Inquiry::OutOfRange(i)
        },
        None => if lo == hi {
            Inquiry::Chosen(0)
        } else {
            Inquiry::Invalid
        },
    }
}

} // verus!
