use vstd::prelude::*;

use crate::text::{chars_of, fields, lines, split_fields};

verus! {

/// How an image's link-time addresses relate to runtime addresses, from the
/// type field of its ELF header.
#[derive(Debug, Clone, Copy, PartialEq, Eq)]
pub enum ImageKind {
    /// A classic executable: symbol addresses are already absolute.
    FixedAddress,
    /// A shared or position-independent object, loaded at a per-process bias.
    PositionIndependent,
    /// Any other header type.
    Unsupported(u16),
}

/// Why a runtime address could not be computed.
#[derive(Debug, Clone, Copy, PartialEq, Eq)]
pub enum AddressError {
    /// No mapping line with a zero offset is backed by the executable.
    BaseNotFound,
    /// The address range of the matching line has no `-`.
    MissingRangeSeparator,
    /// The lower bound of the matching line is not a hexadecimal `u64`.
    BadHexAddress,
    /// Load bias plus link-time address exceeds `u64`.
    Overflow,
    /// The image is neither fixed-address nor position-independent.
    UnsupportedImageKind(u16),
}

pub open spec fn hex_digit(c: char) -> Option<nat> {
    let u = c as u32;
    if 0x30 <= u <= 0x39 {
        Some((u - 0x30) as nat)
    } else if 0x61 <= u <= 0x66 {
        Some((u - 0x61 + 10) as nat)
    } else if 0x41 <= u <= 0x46 {
        Some((u - 0x41 + 10) as nat)
    } else {
        None
    }
}

pub open spec fn all_hex(d: Seq<char>) -> bool {
    forall|i: int| 0 <= i < d.len() ==> #[trigger] hex_digit(d[i]) is Some
}

/// The number that the hexadecimal digits `d` spell, most significant first.
pub open spec fn hex_value(d: Seq<char>) -> nat
    decreases d.len(),
{
    if d.len() == 0 {
        0
    } else {
        hex_value(d.drop_last()) * 16 + hex_digit(d.last()).unwrap_or(0)
    }
}

/// `u64::from_str_radix(s, 16)`: an optional `+`, then one or more hex
/// digits whose value fits in a `u64`.
pub open spec fn parse_hex(s: Seq<char>) -> Option<u64> {
    let d = if s.len() > 0 && s[0] == '+' {
        s.drop_first()
    } else {
        s
    };
    if d.len() > 0 && all_hex(d) && hex_value(d) <= u64::MAX {
        Some(hex_value(d) as u64)
    } else {
        None
    }
}

/// Index of the first `c` in `s`, or `s.len()` when there is none.
pub open spec fn index_of(s: Seq<char>, c: char) -> int
    decreases s.len(),
{
    if s.len() == 0 {
        0
    } else {
        let p = index_of(s.drop_last(), c);
        if p < s.len() - 1 {
            p
        } else if s.last() == c {
            s.len() - 1
        } else {
            s.len() as int
        }
    }
}

/// The lower bound of an address-range field `begin-end`.
pub open spec fn range_start(col: Seq<char>) -> Result<u64, AddressError> {
    let p = index_of(col, '-');
    if p >= col.len() {
        Err(AddressError::MissingRangeSeparator)
    } else {
        match parse_hex(col.take(p)) {
            Some(v) => Ok(v),
            None => Err(AddressError::BadHexAddress),
        }
    }
}

/// The offset field of a mapping at the start of its file.
pub open spec fn zero_offset() -> Seq<char> {
    seq!['0', '0', '0', '0', '0', '0', '0', '0']
}

/// A mapping line `range perms offset dev inode path` whose offset is zero
/// and whose path is `path`.
pub open spec fn maps_line_matches(line: Seq<char>, path: Seq<char>) -> bool {
    let f = fields(line);
    f.len() >= 6 && f[2] == zero_offset() && f[5] == path
}

/// The lower bound of the first matching line of `ls`.
pub open spec fn base_in_lines(ls: Seq<Seq<char>>, path: Seq<char>) -> Result<u64, AddressError>
    decreases ls.len(),
{
    if ls.len() == 0 {
        Err(AddressError::BaseNotFound)
    } else if maps_line_matches(ls[0], path) {
        range_start(fields(ls[0])[0])
    } else {
        base_in_lines(ls.drop_first(), path)
    }
}

/// The load bias that the mapping table `maps` gives for the executable at
/// `path`.
pub open spec fn base_address(maps: Seq<char>, path: Seq<char>) -> Result<u64, AddressError> {
    base_in_lines(lines(maps), path)
}

/// The runtime address of a symbol at `link_addr` in an image of `kind`.
pub open spec fn runtime_address(
    kind: ImageKind,
    link_addr: u64,
    path: Seq<char>,
    maps: Seq<char>,
) -> Result<u64, AddressError> {
    match kind {
        ImageKind::FixedAddress => Ok(link_addr),
        ImageKind::PositionIndependent => match base_address(maps, path) {
            Ok(base) => if base + link_addr <= u64::MAX {
                Ok((base + link_addr) as u64)
            } else {
                Err(AddressError::Overflow)
            },
            Err(e) => Err(e),
        },
        ImageKind::Unsupported(t) => Err(AddressError::UnsupportedImageKind(t)),
    }
}

proof fn lemma_hex_prefix_le(d: Seq<char>, j: int)
    requires
        0 <= j <= d.len(),
    ensures
        hex_value(d.take(j)) <= hex_value(d),
    decreases d.len(),
{
    if j < d.len() {
        assert(d.drop_last().take(j) =~= d.take(j));
        lemma_hex_prefix_le(d.drop_last(), j);
    } else {
        assert(d.take(j) =~= d);
    }
}

fn hex_digit_value(c: char) -> (r: Option<u64>)
    ensures
        r matches Some(v) ==> hex_digit(c) == Some(v as nat) && v < 16,
        r is None ==> hex_digit(c) is None,
{
    let u = c as u32;
    if 0x30 <= u && u <= 0x39 {
        Some((u - 0x30) as u64)
    } else if 0x61 <= u && u <= 0x66 {
        Some((u - 0x61 + 10) as u64)
    } else if 0x41 <= u && u <= 0x46 {
        Some((u - 0x41 + 10) as u64)
    } else {
        None
    }
}

/// The hexadecimal number before the first `-` of `col`.
fn parse_range_start(col: &Vec<char>) -> (r: Result<u64, AddressError>)
    ensures
        r == range_start(col@),
{
    let mut p: usize = 0;
    while p < col.len() && col[p] != '-'
        invariant
            p <= col@.len(),
            forall|k: int| 0 <= k < p ==> col@[k] != '-',
        decreases col@.len() - p,
    {
        p = p + 1;
    }
    proof {
        lemma_index_of(col@, '-', p as int);
    }
    if p >= col.len() {
        return Err(AddressError::MissingRangeSeparator);
    }
    let ghost s = col@.take(p as int);
    let start: usize = if p > 0 && col[0] == '+' {
        1
    } else {
        0
    };
    let ghost d = s.subrange(start as int, p as int);
    proof {
        if start == 1 {
            assert(d =~= s.drop_first());
        } else {
            assert(d =~= s);
        }
    }
    if start >= p {
        return Err(AddressError::BadHexAddress);
    }
    let mut acc: u64 = 0;
    let mut j: usize = start;
    while j < p
        invariant
            start <= j <= p <= col@.len(),
            d == col@.subrange(start as int, p as int),
            p < col@.len(),
            index_of(col@, '-') == p,
            s == col@.take(p as int),
            d == if s.len() > 0 && s[0] == '+' {
                s.drop_first()
            } else {
                s
            },
            d.len() > 0,
            acc == hex_value(d.take(j - start)),
            all_hex(d.take(j - start)),
        decreases p - j,
    {
        let ghost pre = d.take(j - start);
        let ghost next = d.take(j - start + 1);
        proof {
            assert(next.drop_last() =~= pre);
            assert(next.last() == col@[j as int]);
        }
        match hex_digit_value(col[j]) {
            None => {
                assert(!all_hex(d)) by {
                    assert(hex_digit(d[j - start]) is None);
                }
                return Err(AddressError::BadHexAddress);
            },
            Some(v) => {
                if acc > (u64::MAX - v) / 16 {
                    proof {
                        assert(acc * 16 + v > u64::MAX) by (nonlinear_arith)
                            requires
                                acc > (u64::MAX - v) / 16,
                                v < 16,
                        {
                        }
                        lemma_hex_prefix_le(d, j - start + 1);
                    }
                    return Err(AddressError::BadHexAddress);
                }
                assert(acc * 16 + v <= u64::MAX) by (nonlinear_arith)
                    requires
                        acc <= (u64::MAX - v) / 16,
                        v < 16,
                {
                }
                acc = acc * 16 + v;
                proof {
                    assert forall|i: int| 0 <= i < next.len() implies #[trigger] hex_digit(
                        next[i],
                    ) is Some by {
                        if i < pre.len() {
                            assert(next[i] == pre[i]);
                        }
                    }
                }
            },
        }
        j = j + 1;
    }
    proof {
        assert(d.take(p - start) =~= d);
    }
    Ok(acc)
}

pub proof fn lemma_index_of(s: Seq<char>, c: char, p: int)
    requires
        0 <= p <= s.len(),
        forall|k: int| 0 <= k < p ==> s[k] != c,
        p < s.len() ==> s[p] == c,
    ensures
        index_of(s, c) == p,
    decreases s.len(),
{
    if s.len() > 0 {
        if p < s.len() {
            if p < s.len() - 1 {
                lemma_index_of(s.drop_last(), c, p);
            } else {
                lemma_index_of(s.drop_last(), c, p);
            }
        } else {
            lemma_index_of(s.drop_last(), c, p - 1);
        }
    }
}

fn chars_equal(a: &Vec<char>, b: &Vec<char>) -> (r: bool)
    ensures
        r == (a@ == b@),
{
    if a.len() != b.len() {
        return false;
    }
    let mut i: usize = 0;
    while i < a.len()
        invariant
            a@.len() == b@.len(),
            i <= a@.len(),
            forall|k: int| 0 <= k < i ==> a@[k] == b@[k],
        decreases a@.len() - i,
    {
        if a[i] != b[i] {
            return false;
        }
        i = i + 1;
    }
    proof {
        assert(a@ =~= b@);
    }
    true
}

fn is_zero_offset(f: &Vec<char>) -> (r: bool)
    ensures
        r == (f@ == zero_offset()),
{
    if f.len() != 8 {
        return false;
    }
    let mut i: usize = 0;
    while i < 8
        invariant
            f@.len() == 8,
            i <= 8,
            forall|k: int| 0 <= k < i ==> f@[k] == '0',
        decreases 8 - i,
    {
        if f[i] != '0' {
            return false;
        }
        i = i + 1;
    }
    proof {
        assert(f@ =~= zero_offset());
    }
    true
}

/// Folds one more line into the lookup: the first match decides.
fn check_line(found: Result<u64, AddressError>, line: &Vec<char>, path: &Vec<char>) -> (r: Result<
    u64,
    AddressError,
>)
    ensures
        r == if found == Err::<u64, AddressError>(AddressError::BaseNotFound) {
            if maps_line_matches(line@, path@) {
                range_start(fields(line@)[0])
            } else {
                Err(AddressError::BaseNotFound)
            }
        } else {
            found
        },
{
    match found {
        Err(AddressError::BaseNotFound) => {},
        _ => return found,
    }
    let f = split_fields(line);
    if f.len() < 6 {
        return Err(AddressError::BaseNotFound);
    }
    proof {
        assert(f.deep_view()[2] =~= f@[2]@);
        assert(f.deep_view()[5] =~= f@[5]@);
        assert(f.deep_view()[0] =~= f@[0]@);
    }
    if is_zero_offset(&f[2]) && chars_equal(&f[5], path) {
        parse_range_start(&f[0])
    } else {
        Err(AddressError::BaseNotFound)
    }
}

proof fn lemma_base_push(ls: Seq<Seq<char>>, x: Seq<char>, path: Seq<char>)
    ensures
        base_in_lines(ls.push(x), path) == if base_in_lines(ls, path) == Err::<u64, AddressError>(
            AddressError::BaseNotFound,
        ) {
            if maps_line_matches(x, path) {
                range_start(fields(x)[0])
            } else {
                Err(AddressError::BaseNotFound)
            }
        } else {
            base_in_lines(ls, path)
        },
    decreases ls.len(),
{
    if ls.len() == 0 {
        assert(ls.push(x).drop_first() =~= Seq::<Seq<char>>::empty());
    } else {
        assert(ls.push(x).drop_first() =~= ls.drop_first().push(x));
        assert(ls.push(x)[0] == ls[0]);
        lemma_base_push(ls.drop_first(), x, path);
    }
}

/// The load bias of the executable at `exe_path` in the mapping table
/// `maps`: the lower bound of the address range of the first line whose
/// offset field is `00000000` and whose path field is exactly `exe_path`.
pub fn get_base_addr(maps: &str, exe_path: &str) -> (r: Result<u64, AddressError>)
    ensures
        r == base_address(maps@, exe_path@),
{
    let text = chars_of(maps);
    let path = chars_of(exe_path);
    let mut found: Result<u64, AddressError> = Err(AddressError::BaseNotFound);
    let mut line: Vec<char> = Vec::new();
    let ghost mut done: Seq<Seq<char>> = seq![];
    let mut i: usize = 0;
    while i < text.len()
        invariant
            i <= text@.len(),
            lines(text@.take(i as int)) == done.push(line@),
            found == base_in_lines(done, path@),
        decreases text@.len() - i,
    {
        let c = text[i];
        proof {
            assert(text@.take(i + 1).drop_last() =~= text@.take(i as int));
        }
        if c == '\n' {
            proof {
                lemma_base_push(done, line@, path@);
            }
            found = check_line(found, &line, &path);
            proof {
                done = done.push(line@);
            }
            line = Vec::new();
            proof {
                assert(lines(text@.take(i + 1)) =~= done.push(line@));
            }
        } else {
            let ghost l0 = line@;
            line.push(c);
            proof {
                assert(lines(text@.take(i + 1)) =~= done.push(line@));
            }
        }
        i = i + 1;
    }
    proof {
        assert(text@.take(i as int) =~= maps@);
        lemma_base_push(done, line@, path@);
    }
    check_line(found, &line, &path)
}

/// The lookup finds the first line whose offset is zero and whose path is
/// `path`, and gives the lower bound of its range; with no such line it
/// reports that there is no base.
pub proof fn lemma_base_is_first_match(maps: Seq<char>, path: Seq<char>)
    ensures
        (forall|i: int| 0 <= i < lines(maps).len() ==> !maps_line_matches(#[trigger] lines(maps)[i], path))
            ==> base_address(maps, path) == Err::<u64, AddressError>(AddressError::BaseNotFound),
        forall|i: int|
            0 <= i < lines(maps).len() && maps_line_matches(#[trigger] lines(maps)[i], path) && (forall|
                j: int,
            | 0 <= j < i ==> !maps_line_matches(lines(maps)[j], path)) ==> base_address(maps, path)
                == range_start(fields(lines(maps)[i])[0]),
{
    lemma_first_match(lines(maps), path);
}

proof fn lemma_first_match(ls: Seq<Seq<char>>, path: Seq<char>)
    ensures
        (forall|i: int| 0 <= i < ls.len() ==> !maps_line_matches(#[trigger] ls[i], path))
            ==> base_in_lines(ls, path) == Err::<u64, AddressError>(AddressError::BaseNotFound),
        forall|i: int|
            0 <= i < ls.len() && maps_line_matches(#[trigger] ls[i], path) && (forall|j: int|
                0 <= j < i ==> !maps_line_matches(ls[j], path)) ==> base_in_lines(ls, path)
                == range_start(fields(ls[i])[0]),
    decreases ls.len(),
{
    if ls.len() > 0 {
        let rest = ls.drop_first();
        lemma_first_match(rest, path);
        if forall|i: int| 0 <= i < ls.len() ==> !maps_line_matches(#[trigger] ls[i], path) {
            assert forall|i: int| 0 <= i < rest.len() implies !maps_line_matches(
                #[trigger] rest[i],
                path,
            ) by {
                assert(rest[i] == ls[i + 1]);
            }
        }
        assert forall|i: int|
            0 <= i < ls.len() && maps_line_matches(#[trigger] ls[i], path) && (forall|j: int|
                0 <= j < i ==> !maps_line_matches(ls[j], path)) implies base_in_lines(ls, path)
            == range_start(fields(ls[i])[0]) by {
            if i > 0 {
                assert(!maps_line_matches(ls[0], path));
                assert(rest[i - 1] == ls[i]);
                assert forall|j: int| 0 <= j < i - 1 implies !maps_line_matches(rest[j], path) by {
                    assert(rest[j] == ls[j + 1]);
                }
            }
        }
    }
}

/// The runtime address of the symbol at `link_addr`: unchanged in a
/// fixed-address image; in a position-independent one, the load bias that
/// `maps` gives for `exe_path` plus `link_addr`, with overflow reported.
pub fn resolve_address(kind: ImageKind, link_addr: u64, exe_path: &str, maps: &str) -> (r: Result<
    u64,
    AddressError,
>)
    ensures
        r == runtime_address(kind, link_addr, exe_path@, maps@),
{
    match kind {
        ImageKind::FixedAddress => Ok(link_addr),
        ImageKind::PositionIndependent => match get_base_addr(maps, exe_path) {
            Ok(base) => match base.checked_add(link_addr) {
                Some(a) => Ok(a),
                None => Err(AddressError::Overflow),
            },
            Err(e) => Err(e),
        },
        ImageKind::Unsupported(t) => Err(AddressError::UnsupportedImageKind(t)),
    }
}

} // verus!
