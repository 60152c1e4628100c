//! Byte-level reading of UTF-8 text: slicing between character boundaries,
//! searching, trimming and decimal digits.
//!
//! A text is modelled by the sequence of its bytes, `spec_bytes()`. Every
//! position in this crate is a byte offset into that sequence.
use vstd::prelude::*;
use vstd::string::*;
use vstd::utf8::*;
use crate::error::optional_bytes;

verus! {

/// Whether the bytes `from..to` of a UTF-8 text can be taken out as a text of
/// their own: the range lies inside the text and both ends fall between
/// characters.
pub open spec fn sliceable(bytes: Seq<u8>, from: int, to: int) -> bool {
    &&& 0 <= from <= to <= bytes.len()
    &&& is_char_boundary(bytes, from)
    &&& is_char_boundary(bytes, to)
}

/// A boundary of a text that lies inside a prefix of it, the prefix itself
/// ending on a boundary, is a boundary of the prefix.
proof fn lemma_boundary_in_prefix(bytes: Seq<u8>, from: int, to: int)
    requires
        valid_utf8(bytes),
        sliceable(bytes, from, to),
    ensures
        valid_utf8(bytes.subrange(0, to)),
        is_char_boundary(bytes.subrange(0, to), from),
{
    let prefix = bytes.subrange(0, to);
    valid_utf8_split(bytes, to);
    if from == to {
        is_char_boundary_start_end_of_seq(prefix);
    } else {
        is_char_boundary_iff_not_is_continuation_byte(bytes, from);
        is_char_boundary_iff_not_is_continuation_byte(prefix, from);
    }
}

/// An ASCII byte: one that is a character by itself.
pub open spec fn is_ascii_byte(b: u8) -> bool {
    b < 0x80
}

/// Behind an ASCII byte that begins at a character boundary lies a boundary.
proof fn lemma_boundary_step(bytes: Seq<u8>, i: int)
    requires
        valid_utf8(bytes),
        0 <= i < bytes.len(),
        is_char_boundary(bytes, i),
        is_ascii_byte(bytes[i]),
    ensures
        is_char_boundary(bytes, i + 1),
    decreases bytes.len(),
{
    let rest = pop_first_scalar(bytes);
    let first = length_of_first_scalar(bytes);
    assert(valid_utf8(rest));
    if i == 0 {
        assert(first == 1);
        assert(is_char_boundary(rest, 0));
    } else {
        assert(is_char_boundary(rest, i - first));
        if i - first < 0 {
            assert(!is_char_boundary(rest, i - first));
        }
        assert(rest[i - first] == bytes[i]);
        lemma_boundary_step(rest, i - first);
    }
}

/// An ASCII byte of a UTF-8 text has a character boundary on either side.
pub proof fn lemma_ascii_boundaries(bytes: Seq<u8>, i: int)
    requires
        valid_utf8(bytes),
        0 <= i < bytes.len(),
        is_ascii_byte(bytes[i]),
    ensures
        is_char_boundary(bytes, i),
        is_char_boundary(bytes, i + 1),
{
    is_char_boundary_iff_not_is_continuation_byte(bytes, i);
    lemma_boundary_step(bytes, i);
}

/// Both ends of a UTF-8 text are character boundaries.
pub proof fn lemma_end_boundaries(s: &str)
    ensures
        valid_utf8(s.spec_bytes()),
        is_char_boundary(s.spec_bytes(), 0),
        is_char_boundary(s.spec_bytes(), s.spec_bytes().len() as int),
{
    encode_utf8_valid_utf8(s@);
    is_char_boundary_start_end_of_seq(s.spec_bytes());
}

/// The text between the byte offsets `from` and `to` of `s`.
pub fn cut<'a>(s: &'a str, from: usize, to: usize) -> (r: &'a str)
    requires
        sliceable(s.spec_bytes(), from as int, to as int),
    ensures
        r.spec_bytes() == s.spec_bytes().subrange(from as int, to as int),
{
    proof {
        encode_utf8_valid_utf8(s@);
        lemma_boundary_in_prefix(s.spec_bytes(), from as int, to as int);
    }
    let (head, _) = s.split_at(to);
    let (_, middle) = head.split_at(from);
    assert(middle.spec_bytes() =~= s.spec_bytes().subrange(from as int, to as int));
    middle
}

/// The text from the byte offset `from` of `s` to its end.
pub fn cut_from<'a>(s: &'a str, from: usize) -> (r: &'a str)
    requires
        from <= s.spec_bytes().len(),
        is_char_boundary(s.spec_bytes(), from as int),
    ensures
        r.spec_bytes() == s.spec_bytes().subrange(from as int, s.spec_bytes().len() as int),
{
    proof {
        lemma_end_boundaries(s);
    }
    cut(s, from, s.as_bytes().len())
}

/// The text between the byte offsets `from` and `to`, or `None` where the
/// range cannot be cut out of `s`.
pub fn slice<'a>(s: &'a str, from: usize, to: usize) -> (r: Option<&'a str>)
    ensures
        r is Some <==> sliceable(s.spec_bytes(), from as int, to as int),
        r matches Some(t) ==> t.spec_bytes() == s.spec_bytes().subrange(from as int, to as int),
{
    if from > to || to > s.as_bytes().len() {
        return None;
    }
    if !s.is_char_boundary(from) || !s.is_char_boundary(to) {
        return None;
    }
    Some(cut(s, from, to))
}

/// The text from the byte offset `from` to the end, or `None` where `from`
/// lies outside `s` or inside a character.
pub fn slice_from<'a>(s: &'a str, from: usize) -> (r: Option<&'a str>)
    ensures
        r is Some <==> from <= s.spec_bytes().len() && is_char_boundary(
            s.spec_bytes(),
            from as int,
        ),
        r matches Some(t) ==> t.spec_bytes() == s.spec_bytes().subrange(
            from as int,
            s.spec_bytes().len() as int,
        ),
{
    proof {
        lemma_end_boundaries(s);
    }
    slice(s, from, s.as_bytes().len())
}

/// Whether two byte strings hold the same bytes.
pub fn same_bytes(a: &[u8], b: &[u8]) -> (r: bool)
    ensures
        r == (a@ == b@),
{
    if a.len() != b.len() {
        return false;
    }
    let mut i: usize = 0;
    while i < a.len()
        invariant
            a@.len() == b@.len(),
            0 <= i <= a@.len(),
            a@.subrange(0, i as int) == b@.subrange(0, i as int),
        decreases a@.len() - i,
    {
        if a[i] != b[i] {
            assert(a@[i as int] != b@[i as int]);
            return false;
        }
        assert(a@.subrange(0, i + 1) =~= a@.subrange(0, i as int).push(a@[i as int]));
        assert(b@.subrange(0, i + 1) =~= b@.subrange(0, i as int).push(b@[i as int]));
        i += 1;
    }
    assert(a@ =~= a@.subrange(0, i as int));
    assert(b@ =~= b@.subrange(0, i as int));
    true
}

/// Whether `prefix` stands at the start of `bytes`.
pub open spec fn has_prefix(bytes: Seq<u8>, prefix: Seq<u8>) -> bool {
    prefix.len() <= bytes.len() && bytes.subrange(0, prefix.len() as int) == prefix
}

/// Whether `suffix` stands at the end of `bytes`.
pub open spec fn has_suffix(bytes: Seq<u8>, suffix: Seq<u8>) -> bool {
    suffix.len() <= bytes.len() && bytes.subrange(bytes.len() - suffix.len(), bytes.len() as int)
        == suffix
}

/// Whether the bytes of `b` from `at` on start with `prefix`.
pub fn starts_with_at(b: &[u8], at: usize, prefix: &[u8]) -> (r: bool)
    requires
        at <= b@.len(),
    ensures
        r == has_prefix(b@.subrange(at as int, b@.len() as int), prefix@),
{
    let rest = b.len() - at;
    if prefix.len() > rest {
        return false;
    }
    let ghost tail = b@.subrange(at as int, b@.len() as int);
    let mut i: usize = 0;
    while i < prefix.len()
        invariant
            at <= b@.len(),
            tail == b@.subrange(at as int, b@.len() as int),
            prefix@.len() <= tail.len(),
            tail.len() == b@.len() - at,
            b@.len() <= usize::MAX,
            0 <= i <= prefix@.len(),
            tail.subrange(0, i as int) == prefix@.subrange(0, i as int),
        decreases prefix@.len() - i,
    {
        if b[at + i] != prefix[i] {
            assert(tail.subrange(0, prefix@.len() as int)[i as int] != prefix@[i as int]);
            return false;
        }
        assert(tail.subrange(0, i + 1) =~= tail.subrange(0, i as int).push(tail[i as int]));
        assert(prefix@.subrange(0, i + 1) =~= prefix@.subrange(0, i as int).push(prefix@[i as int]));
        i += 1;
    }
    assert(prefix@ =~= prefix@.subrange(0, i as int));
    true
}

/// The offset of the first `target` at or after `from`, or the length of
/// `bytes` where there is none.
pub open spec fn index_of(bytes: Seq<u8>, from: int, target: u8) -> int
    decreases bytes.len() - from,
{
    if from < 0 || from >= bytes.len() {
        bytes.len() as int
    } else if bytes[from] == target {
        from
    } else {
        index_of(bytes, from + 1, target)
    }
}

/// `index_of` lies between `from` and the length, points at `target` when it
/// is inside, and passes over no `target`.
pub proof fn lemma_index_of(bytes: Seq<u8>, from: int, target: u8)
    requires
        0 <= from <= bytes.len(),
    ensures
        from <= index_of(bytes, from, target) <= bytes.len(),
        index_of(bytes, from, target) < bytes.len() ==> bytes[index_of(bytes, from, target)]
            == target,
        forall|i: int| from <= i < index_of(bytes, from, target) ==> bytes[i] != target,
    decreases bytes.len() - from,
{
    if from < bytes.len() && bytes[from] != target {
        lemma_index_of(bytes, from + 1, target);
    }
}

/// Searches `b` from `from` on for the first `target`.
pub fn find_byte(b: &[u8], from: usize, target: u8) -> (r: usize)
    requires
        from <= b@.len(),
    ensures
        r as int == index_of(b@, from as int, target),
        from <= r <= b@.len(),
{
    let mut i: usize = from;
    while i < b.len()
        invariant
            from <= i <= b@.len(),
            index_of(b@, from as int, target) == index_of(b@, i as int, target),
        decreases b@.len() - i,
    {
        if b[i] == target {
            return i;
        }
        i += 1;
    }
    i
}

/// Where the `n`-th of the segments that the separator `sep` divides
/// `bytes` into begins, counting from 0. Past the length where `bytes` has
/// no such segment.
pub open spec fn segment_start(bytes: Seq<u8>, sep: u8, n: nat) -> int
    decreases n,
{
    if n == 0 {
        0
    } else {
        index_of(bytes, segment_start(bytes, sep, (n - 1) as nat), sep) + 1
    }
}

/// Whether `bytes` has an `n`-th segment.
pub open spec fn has_segment(bytes: Seq<u8>, sep: u8, n: nat) -> bool {
    segment_start(bytes, sep, n) <= bytes.len()
}

/// Where the `n`-th segment ends: at the next separator or at the end.
pub open spec fn segment_end(bytes: Seq<u8>, sep: u8, n: nat) -> int {
    index_of(bytes, segment_start(bytes, sep, n), sep)
}

/// The `n`-th segment.
pub open spec fn segment(bytes: Seq<u8>, sep: u8, n: nat) -> Seq<u8> {
    bytes.subrange(segment_start(bytes, sep, n), segment_end(bytes, sep, n))
}

/// A segment that exists lies inside the text, and the first always exists.
pub proof fn lemma_segment_bounds(bytes: Seq<u8>, sep: u8, n: nat)
    ensures
        0 <= segment_start(bytes, sep, n),
        has_segment(bytes, sep, 0),
        has_segment(bytes, sep, n) ==> segment_start(bytes, sep, n) <= segment_end(bytes, sep, n)
            <= bytes.len(),
        !has_segment(bytes, sep, n) ==> segment_start(bytes, sep, n) == bytes.len() + 1,
    decreases n,
{
    if n > 0 {
        let before = (n - 1) as nat;
        lemma_segment_bounds(bytes, sep, before);
        if has_segment(bytes, sep, before) {
            lemma_index_of(bytes, segment_start(bytes, sep, before), sep);
        }
    }
    if has_segment(bytes, sep, n) {
        lemma_index_of(bytes, segment_start(bytes, sep, n), sep);
    }
}

/// Behind a segment that is missing, or that ends the text, there is no
/// other.
pub proof fn lemma_last_segment(bytes: Seq<u8>, sep: u8, n: nat, m: nat)
    requires
        n < m,
        !has_segment(bytes, sep, n) || segment_end(bytes, sep, n) == bytes.len(),
    ensures
        !has_segment(bytes, sep, m),
    decreases m,
{
    lemma_segment_bounds(bytes, sep, n);
    if m > n + 1 {
        lemma_last_segment(bytes, sep, n, (m - 1) as nat);
        lemma_segment_bounds(bytes, sep, (m - 1) as nat);
    }
}

/// Reads the segment that begins at `start`: returns its text and where it
/// ends.
pub fn read_segment<'a>(s: &'a str, sep: u8, start: usize) -> (r: (&'a str, usize))
    requires
        is_ascii_byte(sep),
        start <= s.spec_bytes().len(),
        is_char_boundary(s.spec_bytes(), start as int),
    ensures
        r.1 as int == index_of(s.spec_bytes(), start as int, sep),
        start <= r.1 <= s.spec_bytes().len(),
        r.0.spec_bytes() == s.spec_bytes().subrange(start as int, r.1 as int),
        is_char_boundary(s.spec_bytes(), r.1 as int),
        r.1 < s.spec_bytes().len() ==> is_char_boundary(s.spec_bytes(), r.1 + 1),
{
    let b = s.as_bytes();
    let end = find_byte(b, start, sep);
    proof {
        lemma_end_boundaries(s);
        lemma_index_of(b@, start as int, sep);
        if end < b@.len() {
            lemma_ascii_boundaries(b@, end as int);
        }
    }
    (cut(s, start, end), end)
}

/// The classes of ASCII bytes that the decoders skip over or strip.
#[derive(Debug, PartialEq, Eq, Clone, Copy, Structural)]
pub enum ByteClass {
    /// Tab, line feed, vertical tab, form feed, carriage return and space.
    Whitespace,
    /// The colon and the carriage return that stand around a tag's value.
    ColonOrReturn,
    /// The decimal digits and the comma.
    DigitOrComma,
}

/// Whether a byte belongs to a class.
pub open spec fn in_class(class: ByteClass, b: u8) -> bool {
    match class {
        ByteClass::Whitespace => (9 <= b <= 13) || b == ' ' as u8,
        ByteClass::ColonOrReturn => b == ':' as u8 || b == '\r' as u8,
        ByteClass::DigitOrComma => is_digit(b) || b == ',' as u8,
    }
}

/// Whether `b` belongs to `class`.
pub fn belongs(class: ByteClass, b: u8) -> (r: bool)
    ensures
        r == in_class(class, b),
        r ==> is_ascii_byte(b),
{
    match class {
        ByteClass::Whitespace => (9 <= b && b <= 13) || b == ' ' as u8,
        ByteClass::ColonOrReturn => b == ':' as u8 || b == '\r' as u8,
        ByteClass::DigitOrComma => digit(b) || b == ',' as u8,
    }
}

/// The offset of the first byte at or after `from` that is not of the
/// class, or the length of `bytes` where all that follow are.
pub open spec fn skip_class(bytes: Seq<u8>, from: int, class: ByteClass) -> int
    decreases bytes.len() - from,
{
    if from < 0 || from >= bytes.len() {
        bytes.len() as int
    } else if in_class(class, bytes[from]) {
        skip_class(bytes, from + 1, class)
    } else {
        from
    }
}

/// The least offset, not below `floor`, from which all bytes before `to` are
/// of the class.
pub open spec fn skip_class_back(bytes: Seq<u8>, floor: int, to: int, class: ByteClass) -> int
    decreases to - floor,
{
    if to <= floor || to > bytes.len() || floor < 0 {
        floor
    } else if in_class(class, bytes[to - 1]) {
        skip_class_back(bytes, floor, to - 1, class)
    } else {
        to
    }
}

/// What is left of `bytes` when the bytes of the class are taken off both
/// ends.
pub open spec fn trimmed(bytes: Seq<u8>, class: ByteClass) -> Seq<u8> {
    let start = skip_class(bytes, 0, class);
    bytes.subrange(start, skip_class_back(bytes, start, bytes.len() as int, class))
}

/// Passes over the bytes of `class` from `from` on.
pub fn skip(b: &[u8], from: usize, class: ByteClass) -> (r: usize)
    requires
        from <= b@.len(),
    ensures
        r as int == skip_class(b@, from as int, class),
        from <= r <= b@.len(),
        r > from ==> in_class(class, b@[r - 1]) && is_ascii_byte(b@[r - 1]),
        r < b@.len() ==> !in_class(class, b@[r as int]),
{
    let mut i: usize = from;
    while i < b.len()
        invariant
            from <= i <= b@.len(),
            skip_class(b@, from as int, class) == skip_class(b@, i as int, class),
            i > from ==> in_class(class, b@[i - 1]) && is_ascii_byte(b@[i - 1]),
        decreases b@.len() - i,
    {
        if !belongs(class, b[i]) {
            return i;
        }
        i += 1;
    }
    i
}

/// Passes backwards over the bytes of `class` that stand before `to`, down
/// to `floor` at most.
pub fn skip_back(b: &[u8], floor: usize, to: usize, class: ByteClass) -> (r: usize)
    requires
        floor <= to <= b@.len(),
    ensures
        r as int == skip_class_back(b@, floor as int, to as int, class),
        floor <= r <= to,
        r < to ==> in_class(class, b@[r as int]) && is_ascii_byte(b@[r as int]),
{
    let mut i: usize = to;
    while i > floor
        invariant
            floor <= i <= to <= b@.len(),
            skip_class_back(b@, floor as int, to as int, class) == skip_class_back(
                b@,
                floor as int,
                i as int,
                class,
            ),
            i < to ==> in_class(class, b@[i as int]) && is_ascii_byte(b@[i as int]),
        decreases i - floor,
    {
        if !belongs(class, b[i - 1]) {
            return i;
        }
        i -= 1;
    }
    i
}

/// Takes the bytes of `class` off both ends of `s`.
pub fn trim<'a>(s: &'a str, class: ByteClass) -> (r: &'a str)
    ensures
        r.spec_bytes() == trimmed(s.spec_bytes(), class),
{
    let b = s.as_bytes();
    let start = skip(b, 0, class);
    let end = skip_back(b, start, b.len(), class);
    proof {
        lemma_end_boundaries(s);
        if start > 0 {
            lemma_ascii_boundaries(b@, start - 1);
        }
        if end < b@.len() {
            lemma_ascii_boundaries(b@, end as int);
        }
    }
    cut(s, start, end)
}

/// What follows the byte `lead` at the start of `bytes`; `None` where
/// `bytes` does not begin with it.
pub open spec fn without_lead(bytes: Seq<u8>, lead: u8) -> Option<Seq<u8>> {
    if bytes.len() > 0 && bytes[0] == lead {
        Some(bytes.subrange(1, bytes.len() as int))
    } else {
        None
    }
}

/// Takes the ASCII byte `lead` off the start of `s`, if `s` begins with it.
pub fn strip_lead<'a>(s: &'a str, lead: u8) -> (r: Option<&'a str>)
    requires
        is_ascii_byte(lead),
    ensures
        optional_bytes(r) == without_lead(s.spec_bytes(), lead),
{
    let b = s.as_bytes();
    if b.len() > 0 && b[0] == lead {
        proof {
            lemma_end_boundaries(s);
            lemma_ascii_boundaries(b@, 0);
        }
        Some(cut_from(s, 1))
    } else {
        None
    }
}

/// An ASCII decimal digit.
pub open spec fn is_digit(b: u8) -> bool {
    '0' as u8 <= b <= '9' as u8
}

/// Whether every byte is a decimal digit.
pub open spec fn all_digits(bytes: Seq<u8>) -> bool {
    forall|i: int| 0 <= i < bytes.len() ==> is_digit(#[trigger] bytes[i])
}

/// The number that a string of decimal digits writes, most significant digit
/// first; the empty string writes 0.
pub open spec fn digits_value(bytes: Seq<u8>) -> nat
    decreases bytes.len(),
{
    if bytes.len() == 0 {
        0
    } else {
        (digits_value(bytes.drop_last()) * 10 + (bytes.last() - '0' as u8)) as nat
    }
}

/// The number written by `bytes`, where they are one or more decimal digits
/// and the number is at most `max`.
pub open spec fn number(bytes: Seq<u8>, max: nat) -> Option<nat> {
    if bytes.len() > 0 && all_digits(bytes) && digits_value(bytes) <= max {
        Some(digits_value(bytes))
    } else {
        None
    }
}

/// A string of digits writes at least what any of its prefixes writes.
pub proof fn lemma_digits_value_prefix(bytes: Seq<u8>, k: int)
    requires
        all_digits(bytes),
        0 <= k <= bytes.len(),
    ensures
        digits_value(bytes.subrange(0, k)) <= digits_value(bytes),
    decreases bytes.len(),
{
    if k == bytes.len() {
        assert(bytes.subrange(0, k) =~= bytes);
    } else {
        lemma_digits_value_prefix(bytes.drop_last(), k);
        assert(bytes.drop_last().subrange(0, k) =~= bytes.subrange(0, k));
    }
}

/// Whether `b` is a decimal digit.
pub fn digit(b: u8) -> (r: bool)
    ensures
        r == is_digit(b),
{
    b >= '0' as u8 && b <= '9' as u8
}

/// Whether the bytes `from..to` of `b` are all decimal digits.
pub fn digits_only(b: &[u8], from: usize, to: usize) -> (r: bool)
    requires
        from <= to <= b@.len(),
    ensures
        r == all_digits(b@.subrange(from as int, to as int)),
{
    let ghost part = b@.subrange(from as int, to as int);
    let mut i: usize = from;
    while i < to
        invariant
            from <= i <= to <= b@.len(),
            part == b@.subrange(from as int, to as int),
            forall|j: int| 0 <= j < i - from ==> is_digit(#[trigger] part[j]),
        decreases to - i,
    {
        if !digit(b[i]) {
            assert(!is_digit(part[i - from]));
            return false;
        }
        i += 1;
    }
    true
}

/// Reads on from a number already begun: `start` is what the digits before
/// have written, and the bytes `from..to` of `b` are appended to them.
/// Returns `None` where one of the bytes is no digit or the number leaves
/// `u64`.
pub(crate) fn read_digits(start: u64, Ghost(before): Ghost<Seq<u8>>, b: &[u8], from: usize, to: usize) -> (r:
    Option<u64>)
    requires
        from <= to <= b@.len(),
        all_digits(before),
        start as nat == digits_value(before),
    ensures
        r == (if all_digits(b@.subrange(from as int, to as int)) && digits_value(
            before + b@.subrange(from as int, to as int),
        ) <= u64::MAX {
            Some(digits_value(before + b@.subrange(from as int, to as int)) as u64)
        } else {
            None
        }),
{
    let ghost part = b@.subrange(from as int, to as int);
    let mut value: u64 = start;
    let mut i: usize = from;
    assert(before + part.subrange(0, 0) =~= before);
    while i < to
        invariant
            from <= i <= to <= b@.len(),
            part == b@.subrange(from as int, to as int),
            all_digits(before),
            all_digits(part.subrange(0, i - from)),
            value as nat == digits_value(before + part.subrange(0, i - from)),
        decreases to - i,
    {
        let byte = b[i];
        let ghost seen = before + part.subrange(0, i - from);
        let ghost next = before + part.subrange(0, i + 1 - from);
        if !digit(byte) {
            assert(!is_digit(part[i - from]));
            return None;
        }
        proof {
            assert(next.drop_last() =~= seen);
            assert(next.last() == byte);
            assert(all_digits(part.subrange(0, i + 1 - from))) by {
                assert forall|j: int| 0 <= j < i + 1 - from implies is_digit(
                    #[trigger] part.subrange(0, i + 1 - from)[j],
                ) by {
                    if j < i - from {
                        assert(part.subrange(0, i - from)[j] == part[j]);
                    }
                }
            }
        }
        let d: u64 = (byte - '0' as u8) as u64;
        if value > (u64::MAX - d) / 10 {
            proof {
                // The number written so far has already left the range, and
                // further digits only make it larger.
                assert(digits_value(next) > u64::MAX);
                if all_digits(part) {
                    let whole = before + part;
                    assert(all_digits(whole));
                    assert(whole.subrange(0, next.len() as int) =~= next);
                    lemma_digits_value_prefix(whole, next.len() as int);
                }
            }
            return None;
        }
        value = value * 10 + d;
        i += 1;
    }
    assert(part.subrange(0, i - from) =~= part);
    Some(value)
}

/// Reads the bytes `from..to` of `b` as a decimal number of at most `max`.
pub fn read_number(b: &[u8], from: usize, to: usize, max: u64) -> (r: Option<u64>)
    requires
        from <= to <= b@.len(),
    ensures
        r == match number(b@.subrange(from as int, to as int), max as nat) {
            Some(n) => Some(n as u64),
            None => None,
        },
{
    if from == to {
        return None;
    }
    assert(Seq::<u8>::empty() + b@.subrange(from as int, to as int) =~= b@.subrange(
        from as int,
        to as int,
    ));
    match read_digits(0, Ghost(Seq::empty()), b, from, to) {
        Some(n) => if n <= max {
            Some(n)
        } else {
            None
        },
        None => None,
    }
}

} // verus!
