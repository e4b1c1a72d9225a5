//! Byte-level parsing of the entered guess: trim stray separators and
//! whitespace, split the series line on commas, and read each chunk's digit
//! characters as one number.  A chunk without digits, or whose digits exceed
//! the widest playable byte, counts as zero, exactly as a failed numeric
//! parse falls back to the default.

use vstd::prelude::*;

verus! {

/// An ASCII decimal digit.
pub open spec fn is_digit_byte(b: u8) -> bool {
    48 <= b <= 57
}

/// An ASCII whitespace byte: space, tab, line feed, vertical tab, form feed
/// or carriage return.
pub open spec fn is_whitespace_byte(b: u8) -> bool {
    b == 32 || (9 <= b <= 13)
}

/// A byte that trimming removes from either end of the series line: a comma
/// or whitespace.
pub open spec fn is_trim_byte(b: u8) -> bool {
    b == 44 || is_whitespace_byte(b)
}

/// `s` without its longest prefix of trim bytes.
pub open spec fn drop_leading_trim(s: Seq<u8>) -> Seq<u8>
    decreases s.len(),
{
    if s.len() > 0 && is_trim_byte(s[0]) {
        drop_leading_trim(s.skip(1))
    } else {
        s
    }
}

/// `s` without its longest suffix of trim bytes.
pub open spec fn drop_trailing_trim(s: Seq<u8>) -> Seq<u8>
    decreases s.len(),
{
    if s.len() > 0 && is_trim_byte(s.last()) {
        drop_trailing_trim(s.drop_last())
    } else {
        s
    }
}

/// `s` with trim bytes removed from both ends.
pub open spec fn trimmed(s: Seq<u8>) -> Seq<u8> {
    drop_trailing_trim(drop_leading_trim(s))
}

/// The number the digit bytes of `s` spell in order, every other byte
/// ignored: an empty or digit-free `s` spells zero.
pub open spec fn digits_value(s: Seq<u8>) -> int
    decreases s.len(),
{
    if s.len() == 0 {
        0
    } else if is_digit_byte(s.last()) {
        digits_value(s.drop_last()) * 10 + (s.last() - 48)
    } else {
        digits_value(s.drop_last())
    }
}

/// The number one comma-free chunk contributes: the value its digits spell,
/// or zero when that value does not fit a byte.
pub open spec fn chunk_value(s: Seq<u8>) -> u8 {
    if 0 <= digits_value(s) <= 255 {
        digits_value(s) as u8
    } else {
        0
    }
}

/// The index of the first comma of `s`, or `s.len()` when it has none.
pub open spec fn first_sep(s: Seq<u8>) -> int
    decreases s.len(),
{
    if s.len() == 0 {
        0
    } else if s[0] == 44 {
        0
    } else {
        1 + first_sep(s.skip(1))
    }
}

/// The numbers the comma-separated chunks of `s` contribute, in order.  Even
/// an empty `s` holds one (empty) chunk.
pub open spec fn chunk_values(s: Seq<u8>) -> Seq<u8>
    decreases s.len(),
    via chunk_values_decreases
{
    if first_sep(s) == s.len() {
        seq![chunk_value(s)]
    } else {
        seq![chunk_value(s.take(first_sep(s)))] + chunk_values(s.skip(first_sep(s) + 1))
    }
}

#[via_fn]
proof fn chunk_values_decreases(s: Seq<u8>) {
    lemma_first_sep_bounds(s);
}

/// What the series line parses to: trim both ends, then one number per
/// comma-separated chunk.
pub open spec fn series_values(s: Seq<u8>) -> Seq<u8> {
    chunk_values(trimmed(s))
}

/// `first_sep` lies between 0 and the length, points at a comma when it is
/// short of the length, and nothing before it is a comma.
pub proof fn lemma_first_sep_bounds(s: Seq<u8>)
    ensures
        0 <= first_sep(s) <= s.len(),
        first_sep(s) < s.len() ==> s[first_sep(s)] == 44,
        forall|k: int| 0 <= k < first_sep(s) ==> s[k] != 44,
    decreases s.len(),
{
    if s.len() == 0 {
    } else if s[0] == 44 {
    } else {
        lemma_first_sep_bounds(s.skip(1));
        assert forall|k: int| 0 <= k < first_sep(s) implies s[k] != 44 by {
            if k > 0 {
                assert(s.skip(1)[k - 1] != 44);
            }
        }
    }
}

/// Any index with `first_sep`'s characterisation is `first_sep`.
pub proof fn lemma_first_sep_unique(s: Seq<u8>, i: int)
    requires
        0 <= i <= s.len(),
        forall|k: int| 0 <= k < i ==> s[k] != 44,
        i < s.len() ==> s[i] == 44,
    ensures
        first_sep(s) == i,
    decreases s.len(),
{
    if s.len() == 0 {
    } else if s[0] == 44 {
        assert(i == 0);
    } else {
        assert(i > 0) by {
            assert(if i < s.len() { s[i] == 44 } else { true });
        }
        assert forall|k: int| 0 <= k < i - 1 implies s.skip(1)[k] != 44 by {
            assert(s[k + 1] != 44);
        }
        assert(i - 1 < s.skip(1).len() ==> s.skip(1)[i - 1] == 44);
        lemma_first_sep_unique(s.skip(1), i - 1);
    }
}

/// When the first `a` bytes are trim bytes and the next one (if any) is not,
/// dropping the leading trim drops exactly those `a` bytes.
pub proof fn lemma_drop_leading_trim_at(s: Seq<u8>, a: int)
    requires
        0 <= a <= s.len(),
        forall|k: int| 0 <= k < a ==> is_trim_byte(#[trigger] s[k]),
        a < s.len() ==> !is_trim_byte(s[a]),
    ensures
        drop_leading_trim(s) == s.skip(a),
    decreases a,
{
    if a == 0 {
        if s.len() > 0 {
            assert(!is_trim_byte(s[0]));
        }
        assert(s.skip(0) =~= s);
    } else {
        assert(is_trim_byte(s[0]));
        assert forall|k: int| 0 <= k < a - 1 implies is_trim_byte(#[trigger] s.skip(1)[k]) by {
            assert(s.skip(1)[k] == s[k + 1]);
        }
        assert(a - 1 < s.skip(1).len() ==> !is_trim_byte(s.skip(1)[a - 1]));
        lemma_drop_leading_trim_at(s.skip(1), a - 1);
        assert(s.skip(1).skip(a - 1) =~= s.skip(a));
    }
}

/// When the bytes from `b` on are trim bytes and the one before `b` (if any)
/// is not, dropping the trailing trim keeps exactly the first `b` bytes.
pub proof fn lemma_drop_trailing_trim_at(s: Seq<u8>, b: int)
    requires
        0 <= b <= s.len(),
        forall|k: int| b <= k < s.len() ==> is_trim_byte(#[trigger] s[k]),
        b > 0 ==> !is_trim_byte(s[b - 1]),
    ensures
        drop_trailing_trim(s) == s.take(b),
    decreases s.len() - b,
{
    if b == s.len() {
        if s.len() > 0 {
            assert(!is_trim_byte(s.last()));
        }
        assert(s.take(b) =~= s);
    } else {
        assert(is_trim_byte(s.last()));
        assert forall|k: int| b <= k < s.drop_last().len() implies is_trim_byte(
            #[trigger] s.drop_last()[k],
        ) by {
            assert(s.drop_last()[k] == s[k]);
        }
        lemma_drop_trailing_trim_at(s.drop_last(), b);
        assert(s.drop_last().take(b) =~= s.take(b));
    }
}

/// The value one chunk of `s` (the bytes of `[from, to)`) contributes.
pub fn chunk_value_of(s: &[u8], from: usize, to: usize) -> (r: u8)
    requires
        from <= to <= s@.len(),
    ensures
        r == chunk_value(s@.subrange(from as int, to as int)),
{
    let mut acc: u16 = 0;
    let mut too_big: bool = false;
    let mut i: usize = from;

    while i < to
        invariant
            from <= i <= to <= s@.len(),
            acc <= 255,
            !too_big ==> acc == digits_value(s@.subrange(from as int, i as int)),
            too_big ==> digits_value(s@.subrange(from as int, i as int)) > 255,
        decreases to - i,
    {
        let ghost prefix = s@.subrange(from as int, i as int);
        let ghost next = s@.subrange(from as int, i as int + 1);
        proof {
            assert(next.drop_last() =~= prefix);
            assert(next.last() == s@[i as int]);
        }
        let b = s[i];
        if b >= 48 && b <= 57 {
            let d: u16 = (b - 48) as u16;
            if too_big {
                proof {
                    assert(digits_value(next) == digits_value(prefix) * 10 + (b - 48));
                    assert(digits_value(prefix) * 10 + (b - 48) > 255);
                }
            } else {
                let grown: u16 = acc * 10 + d;
                if grown > 255 {
                    too_big = true;
                } else {
                    acc = grown;
                }
            }
        }
        i = i + 1;
    }
    if too_big {
        0
    } else {
        acc as u8
    }
}

/// The index of the first comma of `s` in `[from, to)`, or `to` when that
/// stretch has none.
fn find_sep_from(s: &[u8], from: usize, to: usize) -> (j: usize)
    requires
        from <= to <= s@.len(),
    ensures
        from <= j <= to,
        j < to ==> s@[j as int] == 44,
        forall|k: int| from <= k < j ==> s@[k] != 44,
    decreases to - from,
{
    let mut j: usize = from;
    while j < to
        invariant
            from <= j <= to <= s@.len(),
            forall|k: int| from <= k < j ==> s@[k] != 44,
        decreases to - j,
    {
        if s[j] == 44 {
            return j;
        }
        j = j + 1;
    }
    j
}

/// Parses the series line: trims both ends, then reads one number per
/// comma-separated chunk, in order.
pub fn parse_series_bytes(s: &[u8]) -> (r: Vec<u8>)
    ensures
        r@ == series_values(s@),
{
    let len = s.len();

    // Trim bytes off both ends.
    let mut start: usize = 0;
    while start < len && (s[start] == 44 || s[start] == 32 || (s[start] >= 9 && s[start] <= 13))
        invariant
            0 <= start <= len == s@.len(),
            forall|k: int| 0 <= k < start ==> is_trim_byte(#[trigger] s@[k]),
        decreases len - start,
    {
        start = start + 1;
    }
    let mut end: usize = len;
    while end > start && (s[end - 1] == 44 || s[end - 1] == 32 || (s[end - 1] >= 9 && s[end - 1]
        <= 13))
        invariant
            start <= end <= len == s@.len(),
            forall|k: int| end <= k < len ==> is_trim_byte(#[trigger] s@[k]),
        decreases end,
    {
        end = end - 1;
    }

    proof {
        lemma_drop_leading_trim_at(s@, start as int);
        let dropped = s@.skip(start as int);
        assert forall|k: int| end - start <= k < dropped.len() implies is_trim_byte(
            #[trigger] dropped[k],
        ) by {
            assert(dropped[k] == s@[k + start]);
        }
        assert(end - start > 0 ==> !is_trim_byte(dropped[end as int - start as int - 1]));
        lemma_drop_trailing_trim_at(dropped, end as int - start as int);
        assert(dropped.take(end as int - start as int) =~= s@.subrange(
            start as int,
            end as int,
        ));
        assert(trimmed(s@) == s@.subrange(start as int, end as int));
    }

    // Read the chunks of the trimmed stretch.
    let ghost whole = s@.subrange(start as int, end as int);
    let mut result: Vec<u8> = Vec::new();
    let mut pos: usize = start;

    loop
        invariant
            start <= pos <= end <= s@.len(),
            whole == s@.subrange(start as int, end as int),
            trimmed(s@) == whole,
            chunk_values(whole) == result@ + chunk_values(s@.subrange(pos as int, end as int)),
        ensures
            result@ == chunk_values(whole),
        decreases end - pos,
    {
        let ghost region = s@.subrange(pos as int, end as int);
        let j = find_sep_from(s, pos, end);
        proof {
            assert forall|k: int| 0 <= k < j - pos implies region[k] != 44 by {
                assert(region[k] == s@[k + pos]);
            }
            assert(j - pos < region.len() ==> region[j - pos] == 44);
            lemma_first_sep_unique(region, j - pos);
        }
        let v = chunk_value_of(s, pos, j);
        proof {
            assert(s@.subrange(pos as int, j as int) =~= region.take(j - pos));
        }
        result.push(v);
        if j == end {
            proof {
                assert(region.take(j - pos) =~= region);
                assert(chunk_values(region) =~= seq![chunk_value(region)]);
                assert(result@ =~= chunk_values(whole));
            }
            return result;
        }
        proof {
            assert(chunk_values(region) == seq![chunk_value(region.take(j - pos))]
                + chunk_values(region.skip(j - pos + 1)));
            assert(region.skip(j - pos + 1) =~= s@.subrange(j as int + 1, end as int));
        }
        pos = j + 1;
    }
}

} // verus!
