//! Byte-level primitives of the line-oriented text formats: line splitting,
//! whitespace trimming, space-separated fields and unsigned decimal numbers.
//!
//! The tile-file and clue-file grammars are defined over a document's UTF-8
//! bytes.  Records sit one per line; lines end at a line feed, with a
//! trailing carriage return stripped; leading and trailing ASCII whitespace
//! of a line is ignored; fields are separated by single space bytes.

use vstd::prelude::*;

verus! {

/// The line feed byte that ends a line.
pub const LINE_FEED: u8 = 10;

/// The carriage return byte stripped from a line's end.
pub const CARRIAGE_RETURN: u8 = 13;

/// The space byte that separates fields within a record.
pub const SPACE: u8 = 32;

/// The horizontal tab byte.
pub const TAB: u8 = 9;

/// Whether a byte counts as ignorable whitespace at a line's edges.
pub open spec fn is_space_byte(b: u8) -> bool {
    b == SPACE || b == TAB || b == CARRIAGE_RETURN
}

/// Whether a byte is an ASCII decimal digit.
pub open spec fn is_digit(b: u8) -> bool {
    48 <= b <= 57
}

/// The index of the first occurrence of `sep` in `s`, or `s.len()` if `sep`
/// does not occur.
pub open spec fn split_point(s: Seq<u8>, sep: u8) -> int
    decreases s.len(),
{
    if s.len() == 0 {
        0
    } else if s.first() == sep {
        0
    } else {
        1 + split_point(s.drop_first(), sep)
    }
}

/// `split_point` finds the first occurrence of the separator: nothing before
/// it is the separator, and it is the separator unless it is the length.
pub proof fn lemma_split_point(s: Seq<u8>, sep: u8)
    ensures
        0 <= split_point(s, sep) <= s.len(),
        forall|j: int| 0 <= j < split_point(s, sep) ==> s[j] != sep,
        split_point(s, sep) < s.len() ==> s[split_point(s, sep)] == sep,
    decreases s.len(),
{
    if s.len() > 0 && s.first() != sep {
        lemma_split_point(s.drop_first(), sep);
        assert forall|j: int| 0 <= j < split_point(s, sep) implies s[j] != sep by {
            if j > 0 {
                assert(s[j] == s.drop_first()[j - 1]);
            }
        }
    }
}

/// Any position with no separator before it, and the separator (or the end)
/// at it, is the split point.
pub proof fn lemma_split_point_is(s: Seq<u8>, sep: u8, m: int)
    requires
        0 <= m <= s.len(),
        forall|j: int| 0 <= j < m ==> s[j] != sep,
        m < s.len() ==> s[m] == sep,
    ensures
        split_point(s, sep) == m,
    decreases m,
{
    if m == 0 {
    } else {
        assert(s[0] != sep);
        assert forall|j: int| 0 <= j < m - 1 implies s.drop_first()[j] != sep by {
            assert(s.drop_first()[j] == s[j + 1]);
        }
        lemma_split_point_is(s.drop_first(), sep, m - 1);
    }
}

/// A line with its trailing carriage return, if any, stripped.
pub open spec fn strip_carriage_return(line: Seq<u8>) -> Seq<u8> {
    if line.len() > 0 && line.last() == CARRIAGE_RETURN {
        line.drop_last()
    } else {
        line
    }
}

/// The lines of a document, split at line feeds, each with a trailing
/// carriage return stripped.
///
/// As in Rust's `str::lines`, an empty document has no lines and a final
/// line feed does not open a further, empty line.
pub open spec fn spec_lines(s: Seq<u8>) -> Seq<Seq<u8>>
    decreases s.len(),
    via spec_lines_decreases
{
    if s.len() == 0 {
        Seq::empty()
    } else {
        let p = split_point(s, LINE_FEED);
        let line = strip_carriage_return(s.take(p));
        let rest = if p < s.len() {
            s.skip(p + 1)
        } else {
            Seq::empty()
        };
        seq![line] + spec_lines(rest)
    }
}

#[via_fn]
proof fn spec_lines_decreases(s: Seq<u8>) {
    if s.len() > 0 {
        lemma_split_point(s, LINE_FEED);
    }
}

/// The fields of a record, split at every single space byte.
///
/// Splitting is total: a record with no space is one field, and adjoining
/// spaces open empty fields, which no later stage accepts as numbers.
pub open spec fn spec_fields(s: Seq<u8>) -> Seq<Seq<u8>>
    decreases s.len(),
    via spec_fields_decreases
{
    let p = split_point(s, SPACE);
    if p == s.len() {
        seq![s]
    } else {
        seq![s.take(p)] + spec_fields(s.skip(p + 1))
    }
}

#[via_fn]
proof fn spec_fields_decreases(s: Seq<u8>) {
    lemma_split_point(s, SPACE);
}

/// `s` with its leading whitespace bytes removed.
pub open spec fn spec_trim_front(s: Seq<u8>) -> Seq<u8>
    decreases s.len(),
{
    if s.len() > 0 && is_space_byte(s.first()) {
        spec_trim_front(s.drop_first())
    } else {
        s
    }
}

/// `s` with its trailing whitespace bytes removed.
pub open spec fn spec_trim_back(s: Seq<u8>) -> Seq<u8>
    decreases s.len(),
{
    if s.len() > 0 && is_space_byte(s.last()) {
        spec_trim_back(s.drop_last())
    } else {
        s
    }
}

/// `s` with leading and trailing whitespace bytes removed.
pub open spec fn spec_trim(s: Seq<u8>) -> Seq<u8> {
    spec_trim_back(spec_trim_front(s))
}

proof fn lemma_trim_front_is(s: Seq<u8>, a: int)
    requires
        0 <= a <= s.len(),
        forall|j: int| 0 <= j < a ==> is_space_byte(s[j]),
        a < s.len() ==> !is_space_byte(s[a]),
    ensures
        spec_trim_front(s) == s.skip(a),
    decreases a,
{
    if a == 0 {
        assert(s.skip(0) =~= s);
    } else {
        assert(is_space_byte(s.first()));
        assert forall|j: int| 0 <= j < a - 1 implies is_space_byte(s.drop_first()[j]) by {
            assert(s.drop_first()[j] == s[j + 1]);
        }
        lemma_trim_front_is(s.drop_first(), a - 1);
        assert(s.drop_first().skip(a - 1) =~= s.skip(a));
    }
}

proof fn lemma_trim_back_is(s: Seq<u8>, b: int)
    requires
        0 <= b <= s.len(),
        forall|j: int| b <= j < s.len() ==> is_space_byte(s[j]),
        b > 0 ==> !is_space_byte(s[b - 1]),
    ensures
        spec_trim_back(s) == s.take(b),
    decreases s.len() - b,
{
    if b == s.len() {
        assert(s.take(b) =~= s);
    } else {
        assert(is_space_byte(s.last()));
        lemma_trim_back_is(s.drop_last(), b);
        assert(s.drop_last().take(b) =~= s.take(b));
    }
}

/// `spec_trim` keeps exactly the bytes between the first and last
/// non-whitespace byte.
pub proof fn lemma_trim_is(s: Seq<u8>, a: int, b: int)
    requires
        0 <= a <= b <= s.len(),
        forall|j: int| 0 <= j < a ==> is_space_byte(s[j]),
        forall|j: int| b <= j < s.len() ==> is_space_byte(s[j]),
        a < b ==> !is_space_byte(s[a]) && !is_space_byte(s[b - 1]),
    ensures
        spec_trim(s) == s.subrange(a, b),
{
    if a == b {
        let a0 = if a < s.len() && !is_space_byte(s[a as int]) {
            a
        } else {
            s.len() as int
        };
        if a0 == s.len() {
            lemma_trim_front_is(s, s.len() as int);
            lemma_trim_back_is(s.skip(s.len() as int), 0);
            assert(s.skip(s.len() as int).take(0) =~= s.subrange(a, b));
        } else {
            lemma_trim_front_is(s, a);
            lemma_trim_back_is(s.skip(a), 0);
            assert(s.skip(a).take(0) =~= s.subrange(a, b));
        }
    } else {
        lemma_trim_front_is(s, a);
        assert forall|j: int| b - a <= j < s.skip(a).len() implies is_space_byte(
            s.skip(a)[j],
        ) by {
            assert(s.skip(a)[j] == s[j + a]);
        }
        assert(!is_space_byte(s.skip(a)[b - a - 1]));
        lemma_trim_back_is(s.skip(a), b - a);
        assert(s.skip(a).take(b - a) =~= s.subrange(a, b));
    }
}

/// Whether a field is a well-formed unsigned decimal numeral: nonempty and
/// all digits.
pub open spec fn is_numeral(s: Seq<u8>) -> bool {
    s.len() > 0 && forall|i: int| 0 <= i < s.len() ==> is_digit(s[i])
}

/// The value of a digit sequence read as an unsigned decimal numeral.
pub open spec fn dec_value(s: Seq<u8>) -> int
    decreases s.len(),
{
    if s.len() == 0 {
        0
    } else {
        dec_value(s.drop_last()) * 10 + (s.last() - 48)
    }
}

/// The value of a digit sequence is never negative.
pub proof fn lemma_dec_value_nonneg(s: Seq<u8>)
    requires
        forall|i: int| 0 <= i < s.len() ==> is_digit(s[i]),
    ensures
        dec_value(s) >= 0,
    decreases s.len(),
{
    if s.len() > 0 {
        lemma_dec_value_nonneg(s.drop_last());
    }
}

/// Reading one more digit never shrinks the value: every prefix of a digit
/// sequence reads at most the whole.
pub proof fn lemma_dec_value_prefix(s: Seq<u8>, i: int)
    requires
        forall|j: int| 0 <= j < s.len() ==> is_digit(s[j]),
        0 <= i <= s.len(),
    ensures
        dec_value(s.take(i)) <= dec_value(s),
    decreases s.len() - i,
{
    if i == s.len() {
        assert(s.take(i) =~= s);
    } else {
        assert(s.take(i + 1).drop_last() =~= s.take(i));
        lemma_dec_value_nonneg(s.take(i));
        assert(dec_value(s.take(i + 1)) == dec_value(s.take(i)) * 10 + (s[i] - 48));
        lemma_dec_value_prefix(s, i + 1);
    }
}

/// Extract the bytes of one line: from `start` up to the next line feed.
fn scan_line(bytes: &[u8], start: usize) -> (r: (Vec<u8>, usize))
    requires
        start <= bytes@.len(),
    ensures
        start as int + split_point(bytes@.skip(start as int), LINE_FEED) == r.1,
        start <= r.1 <= bytes@.len(),
        r.0@ == strip_carriage_return(bytes@.subrange(start as int, r.1 as int)),
{
    let mut end: usize = start;
    while end < bytes.len() && bytes[end] != LINE_FEED
        invariant
            start <= end <= bytes@.len(),
            forall|k: int| start <= k < end ==> bytes@[k] != LINE_FEED,
        decreases bytes@.len() - end,
    {
        end += 1;
    }
    proof {
        let suffix = bytes@.skip(start as int);
        assert forall|j: int| 0 <= j < end - start implies suffix[j] != LINE_FEED by {
            assert(suffix[j] == bytes@[j + start]);
        }
        lemma_split_point_is(suffix, LINE_FEED, end as int - start as int);
    }
    let mut line = vstd::slice::slice_to_vec(vstd::slice::slice_subrange(bytes, start, end));
    if line.len() > 0 && line[line.len() - 1] == CARRIAGE_RETURN {
        line.pop();
        proof {
            let full = bytes@.subrange(start as int, end as int);
            assert(line@ =~= strip_carriage_return(full));
        }
    }
    (line, end)
}

/// Split a document's bytes into its lines.
pub fn split_lines(bytes: &[u8]) -> (r: Vec<Vec<u8>>)
    ensures
        r@.map_values(|l: Vec<u8>| l@) == spec_lines(bytes@),
{
    let mut lines: Vec<Vec<u8>> = Vec::new();
    let mut pos: usize = 0;
    proof {
        assert(bytes@.skip(0) =~= bytes@);
        assert(lines@.map_values(|l: Vec<u8>| l@) + spec_lines(bytes@) =~= spec_lines(bytes@));
    }
    while pos < bytes.len()
        invariant
            pos <= bytes@.len(),
            spec_lines(bytes@) == lines@.map_values(|l: Vec<u8>| l@) + spec_lines(
                bytes@.skip(pos as int),
            ),
        decreases bytes@.len() - pos,
    {
        let ghost prev_lines = lines@;
        let ghost suffix = bytes@.skip(pos as int);
        let (line, end) = scan_line(bytes, pos);
        proof {
            lemma_split_point(suffix, LINE_FEED);
            assert(suffix.take(end - pos) =~= bytes@.subrange(pos as int, end as int));
        }
        lines.push(line);
        let next = if end < bytes.len() {
            end + 1
        } else {
            end
        };
        proof {
            let rest = if end < bytes@.len() {
                suffix.skip(end - pos + 1)
            } else {
                Seq::<u8>::empty()
            };
            if end < bytes@.len() {
                assert(suffix.skip(end - pos + 1) =~= bytes@.skip(next as int));
            } else {
                assert(bytes@.skip(next as int) =~= Seq::<u8>::empty());
                assert(spec_lines(bytes@.skip(next as int)) =~= Seq::<Seq<u8>>::empty());
            }
            assert(spec_lines(suffix) == seq![strip_carriage_return(suffix.take(end - pos))]
                + spec_lines(bytes@.skip(next as int)));
            assert(lines@.map_values(|l: Vec<u8>| l@) =~= prev_lines.map_values(
                |l: Vec<u8>| l@,
            ) + seq![line@]);
            assert(lines@.map_values(|l: Vec<u8>| l@) + spec_lines(bytes@.skip(next as int))
                =~= prev_lines.map_values(|l: Vec<u8>| l@) + spec_lines(suffix));
        }
        pos = next;
    }
    proof {
        assert(bytes@.skip(pos as int) =~= Seq::<u8>::empty());
        assert(lines@.map_values(|l: Vec<u8>| l@) + spec_lines(bytes@.skip(pos as int))
            =~= lines@.map_values(|l: Vec<u8>| l@));
    }
    lines
}

/// Trim leading and trailing whitespace bytes off a record.
pub fn trim_bytes(line: &Vec<u8>) -> (r: Vec<u8>)
    ensures
        r@ == spec_trim(line@),
{
    let mut start: usize = 0;
    while start < line.len() && (line[start] == SPACE || line[start] == TAB || line[start]
        == CARRIAGE_RETURN)
        invariant
            start <= line@.len(),
            forall|j: int| 0 <= j < start ==> is_space_byte(line@[j]),
        decreases line@.len() - start,
    {
        start += 1;
    }
    let mut end: usize = line.len();
    while end > start && (line[end - 1] == SPACE || line[end - 1] == TAB || line[end - 1]
        == CARRIAGE_RETURN)
        invariant
            start <= end <= line@.len(),
            forall|j: int| 0 <= j < start ==> is_space_byte(line@[j]),
            forall|j: int| end <= j < line@.len() ==> is_space_byte(line@[j]),
        decreases end,
    {
        end -= 1;
    }
    proof {
        lemma_trim_is(line@, start as int, end as int);
    }
    vstd::slice::slice_to_vec(vstd::slice::slice_subrange(line.as_slice(), start, end))
}

/// Split a record into its space-separated fields.
pub fn split_fields(record: &Vec<u8>) -> (r: Vec<Vec<u8>>)
    ensures
        r@.map_values(|f: Vec<u8>| f@) == spec_fields(record@),
{
    let mut fields: Vec<Vec<u8>> = Vec::new();
    let mut pos: usize = 0;
    proof {
        assert(record@.skip(0) =~= record@);
        assert(fields@.map_values(|f: Vec<u8>| f@) + spec_fields(record@) =~= spec_fields(
            record@,
        ));
    }
    loop
        invariant
            pos <= record@.len(),
            pos > 0 ==> record@[pos - 1] == SPACE,
            spec_fields(record@) == fields@.map_values(|f: Vec<u8>| f@) + spec_fields(
                record@.skip(pos as int),
            ),
        decreases record@.len() - pos + 1,
    {
        let ghost prev_fields = fields@;
        let ghost suffix = record@.skip(pos as int);
        let mut end: usize = pos;
        while end < record.len() && record[end] != SPACE
            invariant
                pos <= end <= record@.len(),
                forall|k: int| pos <= k < end ==> record@[k] != SPACE,
            decreases record@.len() - end,
        {
            end += 1;
        }
        proof {
            assert forall|j: int| 0 <= j < end - pos implies suffix[j] != SPACE by {
                assert(suffix[j] == record@[j + pos]);
            }
            lemma_split_point_is(suffix, SPACE, end as int - pos as int);
        }
        let field = vstd::slice::slice_to_vec(
            vstd::slice::slice_subrange(record.as_slice(), pos, end),
        );
        proof {
            assert(field@ =~= suffix.take(end - pos));
        }
        fields.push(field);
        proof {
            assert(fields@.map_values(|f: Vec<u8>| f@) =~= prev_fields.map_values(
                |f: Vec<u8>| f@,
            ) + seq![field@]);
        }
        if end == record.len() {
            proof {
                assert(spec_fields(suffix) == seq![suffix]);
                assert(suffix.take(end - pos) =~= suffix);
                assert(fields@.map_values(|f: Vec<u8>| f@) =~= prev_fields.map_values(
                    |f: Vec<u8>| f@,
                ) + seq![suffix]);
            }
            return fields;
        }
        proof {
            assert(suffix.skip(end - pos + 1) =~= record@.skip(end + 1));
            assert(spec_fields(suffix) == seq![suffix.take(end - pos)] + spec_fields(
                record@.skip(end + 1),
            ));
            assert(fields@.map_values(|f: Vec<u8>| f@) + spec_fields(record@.skip(end + 1))
                =~= prev_fields.map_values(|f: Vec<u8>| f@) + spec_fields(suffix));
        }
        pos = end + 1;
    }
}

/// Parse a field as an unsigned decimal number that fits a `usize`.
///
/// Returns the value exactly when the field is a nonempty all-digit numeral
/// whose value fits; empty fields, other bytes and overflowing values are
/// rejected.
pub fn parse_usize(field: &Vec<u8>) -> (r: Option<usize>)
    ensures
        match r {
            Some(v) => is_numeral(field@) && dec_value(field@) <= usize::MAX && v == dec_value(
                field@,
            ),
            None => !(is_numeral(field@) && dec_value(field@) <= usize::MAX),
        },
{
    if field.len() == 0 {
        return None;
    }
    let mut acc: usize = 0;
    let mut i: usize = 0;
    while i < field.len()
        invariant
            0 < field@.len(),
            i <= field@.len(),
            forall|j: int| 0 <= j < i ==> is_digit(field@[j]),
            acc == dec_value(field@.take(i as int)),
        decreases field@.len() - i,
    {
        let b = field[i];
        if b < 48 || b > 57 {
            return None;
        }
        let d = (b - 48) as usize;
        proof {
            assert(field@.take(i + 1).drop_last() =~= field@.take(i as int));
            assert(dec_value(field@.take(i + 1)) == acc * 10 + d);
        }
        if acc > usize::MAX / 10 || (acc == usize::MAX / 10 && d > usize::MAX % 10) {
            proof {
                assert(dec_value(field@.take(i + 1)) > usize::MAX);
                if is_numeral(field@) {
                    lemma_dec_value_prefix(field@, i + 1);
                }
            }
            return None;
        }
        acc = acc * 10 + d;
        i += 1;
    }
    proof {
        assert(field@.take(field@.len() as int) =~= field@);
    }
    Some(acc)
}

/// The shortest decimal numeral writing the non-negative number `n`.
pub open spec fn spec_dec_repr(n: int) -> Seq<u8>
    decreases n,
{
    if n <= 9 {
        seq![(48 + n) as u8]
    } else {
        spec_dec_repr(n / 10).push((48 + n % 10) as u8)
    }
}

/// The decimal numeral of a non-negative number is a numeral and reads back
/// as that number.
pub proof fn lemma_dec_repr_roundtrip(n: int)
    requires
        0 <= n,
    ensures
        is_numeral(spec_dec_repr(n)),
        dec_value(spec_dec_repr(n)) == n,
    decreases n,
{
    if n <= 9 {
        assert(spec_dec_repr(n).drop_last() =~= Seq::<u8>::empty());
        assert(dec_value(Seq::<u8>::empty()) == 0);
    } else {
        lemma_dec_repr_roundtrip(n / 10);
        let prefix = spec_dec_repr(n / 10);
        let whole = spec_dec_repr(n);
        assert(whole == prefix.push((48 + n % 10) as u8));
        assert(whole.drop_last() =~= prefix);
        assert(whole.last() == (48 + n % 10) as u8);
        assert(dec_value(whole) == dec_value(whole.drop_last()) * 10 + (whole.last() - 48));
        assert(dec_value(whole) == (n / 10) * 10 + n % 10);
        vstd::arithmetic::div_mod::lemma_fundamental_div_mod(n, 10);
        assert(dec_value(whole) == n);
        assert forall|i: int| 0 <= i < whole.len() implies is_digit(whole[i]) by {
            if i < whole.len() - 1 {
                assert(whole[i] == prefix[i]);
            }
        }
    }
}

/// Write a byte's value as its decimal numeral.
pub fn encode_u8(n: u8) -> (r: Vec<u8>)
    ensures
        r@ == spec_dec_repr(n as int),
{
    let mut out: Vec<u8> = Vec::new();
    if n <= 9 {
        out.push(48 + n);
        proof {
            assert(out@ =~= spec_dec_repr(n as int));
        }
    } else if n <= 99 {
        out.push(48 + n / 10);
        out.push(48 + n % 10);
        proof {
            assert(spec_dec_repr(n as int / 10) =~= seq![(48 + n as int / 10) as u8]);
            assert(out@ =~= spec_dec_repr(n as int));
        }
    } else {
        out.push(48 + n / 100);
        out.push(48 + (n / 10) % 10);
        out.push(48 + n % 10);
        proof {
            assert(n / 10 / 10 == n / 100) by (bit_vector);
            assert(n / 10 % 10 < 10) by (bit_vector);
            assert(n / 10 >= 10 ==> n / 10 / 10 >= 1) by (bit_vector);
            assert(spec_dec_repr(n as int / 10 / 10) =~= seq![(48 + n as int / 10 / 10) as u8]);
            assert(spec_dec_repr(n as int / 10) =~= seq![
                (48 + n as int / 100) as u8,
                (48 + (n as int / 10) % 10) as u8,
            ]);
            assert(out@ =~= spec_dec_repr(n as int));
        }
    }
    out
}

/// Parse a field as an unsigned decimal number that fits a byte.
///
/// Returns the value exactly when the field is a nonempty all-digit numeral
/// whose value is at most 255.
pub fn parse_u8(field: &Vec<u8>) -> (r: Option<u8>)
    ensures
        match r {
            Some(v) => is_numeral(field@) && dec_value(field@) <= 255 && v == dec_value(field@),
            None => !(is_numeral(field@) && dec_value(field@) <= 255),
        },
{
    match parse_usize(field) {
        Some(v) => {
            if v <= 255 {
                Some(v as u8)
            } else {
                None
            }
        },
        None => None,
    }
}

} // verus!
