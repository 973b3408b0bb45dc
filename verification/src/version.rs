//! The lenient version parser used for the `version` of AUv2 components.
use vstd::prelude::*;

use crate::text::{
    after_first, before_first, decimal, digit_char, first_index_of,
    index_of_from, lemma_first_index_at, lemma_split_at_first,
};

verus! {

pub open spec fn is_digit(c: char) -> bool {
    '0' <= c && c <= '9'
}

/// The value of a run of decimal digits.
pub open spec fn digits_value(d: Seq<char>) -> int
    decreases d.len(),
{
    if d.len() == 0 {
        0
    } else {
        digits_value(d.drop_last()) * 10 + (d.last() as int - '0' as int)
    }
}

pub open spec fn all_digits(d: Seq<char>) -> bool {
    forall|i: int| 0 <= i < d.len() ==> is_digit(#[trigger] d[i])
}

/// What `str::parse::<u8>` makes of a text: an optional `+` followed by at
/// least one decimal digit, with a value of at most 255.
pub open spec fn spec_parse_u8(s: Seq<char>) -> Option<u8> {
    let d = if s.len() > 1 && s[0] == '+' {
        s.drop_first()
    } else {
        s
    };
    if d.len() > 0 && all_digits(d) && digits_value(d) <= 255 {
        Some(digits_value(d) as u8)
    } else {
        None
    }
}

/// The value of one dot-separated part of a version: the part read as a `u8`,
/// or 0 when it is missing or not such a number.
pub open spec fn part_value(p: Option<Seq<char>>) -> int {
    match p {
        Some(s) => match spec_parse_u8(s) {
            Some(x) => x as int,
            None => 0,
        },
        None => 0,
    }
}

/// The number of characters before the first decimal digit.
pub open spec fn leading_non_digits(s: Seq<char>) -> int
    decreases s.len(),
{
    if s.len() == 0 || is_digit(s[0]) {
        0
    } else {
        1 + leading_non_digits(s.drop_first())
    }
}

/// The number of characters after the last decimal digit.
pub open spec fn trailing_non_digits(s: Seq<char>) -> int
    decreases s.len(),
{
    if s.len() == 0 || is_digit(s.last()) {
        0
    } else {
        1 + trailing_non_digits(s.drop_last())
    }
}

/// The numeric part of a version text: what lies between its non-numeric
/// prefix (the characters before the first digit) and its non-numeric suffix
/// (the characters after the last digit).
pub open spec fn numeric_part(v: Seq<char>) -> Seq<char> {
    let w = v.skip(leading_non_digits(v));
    w.take(w.len() - trailing_non_digits(w))
}

/// The first three dot-separated parts of `v`, those that exist.
pub open spec fn version_parts(v: Seq<char>) -> (Option<Seq<char>>, Option<Seq<char>>, Option<Seq<char>>) {
    let major = Some(before_first(v, '.'));
    match after_first(v, '.') {
        None => (major, None, None),
        Some(r1) => {
            let minor = Some(before_first(r1, '.'));
            match after_first(r1, '.') {
                None => (major, minor, None),
                Some(r2) => (major, minor, Some(before_first(r2, '.'))),
            }
        },
    }
}

/// Major, minor and patch numbers of a version text.
pub open spec fn version_numbers(version: Seq<char>) -> (int, int, int) {
    let parts = version_parts(numeric_part(version));
    (part_value(parts.0), part_value(parts.1), part_value(parts.2))
}

/// The AUv2 version number of a version text: major, minor and patch packed
/// into the bytes 2, 1 and 0 of a 32-bit number.
pub open spec fn spec_parse_version_auv2(version: Seq<char>) -> int {
    let (major, minor, patch) = version_numbers(version);
    major * 65536 + minor * 256 + patch
}

proof fn lemma_digits_value_grows(d: Seq<char>, k: int)
    requires
        0 <= k <= d.len(),
        all_digits(d),
    ensures
        digits_value(d) >= digits_value(d.take(k)) >= 0,
    decreases d.len(),
{
    if d.len() > 0 {
        assert(is_digit(d[d.len() - 1]));
        if k == d.len() {
            assert(d.take(k) =~= d);
            assert(all_digits(d.drop_last()));
            lemma_digits_value_grows(d.drop_last(), k - 1);
            assert(d.drop_last().take(k - 1) =~= d.drop_last());
        } else {
            assert(all_digits(d.drop_last()));
            lemma_digits_value_grows(d.drop_last(), k);
            assert(d.drop_last().take(k) =~= d.take(k));
        }
    }
}

/// Reads a text as `str::parse::<u8>` does.
pub fn parse_u8(s: &str) -> (r: Option<u8>)
    ensures
        r == spec_parse_u8(s@),
{
    let n = s.unicode_len();
    let start: usize = if n > 1 && s.get_char(0) == '+' {
        1
    } else {
        0
    };
    let ghost d = if s@.len() > 1 && s@[0] == '+' {
        s@.drop_first()
    } else {
        s@
    };
    assert(d =~= s@.skip(start as int));
    if start == n {
        return None;
    }
    let mut i = start;
    let mut value: u32 = 0;
    while i < n
        invariant
            n == s@.len(),
            start <= i <= n,
            d =~= s@.skip(start as int),
            d == (if s@.len() > 1 && s@[0] == '+' {
                s@.drop_first()
            } else {
                s@
            }),
            all_digits(d.take(i - start)),
            value as int == digits_value(d.take(i - start)),
            value <= 255,
        decreases n - i,
    {
        let c = s.get_char(i);
        assert(d[i - start] == c);
        if c < '0' || c > '9' {
            assert(!is_digit(d[i - start]));
            assert(!all_digits(d));
            return None;
        }
        let ghost prefix = d.take(i + 1 - start);
        assert(prefix.drop_last() =~= d.take(i - start));
        assert(prefix.last() == c);
        value = value * 10 + (c as u32 - '0' as u32);
        i = i + 1;
        assert(value as int == digits_value(d.take(i - start)));
        assert(all_digits(d.take(i - start))) by {
            assert forall|k: int| 0 <= k < i - start implies is_digit(#[trigger] d.take(i - start)[k]) by {
                if k < i - start - 1 {
                    assert(d.take(i - start)[k] == d.take(i - start - 1)[k]);
                }
            }
        }
        if value > 255 {
            proof {
                if all_digits(d) {
                    lemma_digits_value_grows(d, i - start);
                }
            }
            return None;
        }
    }
    assert(d.take(n - start) =~= d);
    Some(value as u8)
}

/// The value of the part of `s` from `start` up to the next `.`, and where it ends.
fn part_at(s: &str, start: usize) -> (r: (u32, usize))
    requires
        start <= s@.len(),
    ensures
        r.0 as int == part_value(Some(before_first(s@.skip(start as int), '.'))),
        start <= r.1 <= s@.len(),
        r.1 == s@.len() <==> after_first(s@.skip(start as int), '.') is None,
        r.1 < s@.len() ==> after_first(s@.skip(start as int), '.') == Some(s@.skip(r.1 + 1)),
{
    let end = index_of_from(s, start, '.');
    let part = s.substring_char(start, end);
    let ghost rest = s@.skip(start as int);
    assert(part@ =~= before_first(rest, '.'));
    proof {
        if end < s@.len() {
            assert(rest.skip(end - start + 1) =~= s@.skip(end + 1));
        }
    }
    let v: u32 = match parse_u8(part) {
        Some(x) => x as u32,
        None => 0,
    };
    (v, end)
}

proof fn lemma_pack(major: u32, minor: u32, patch: u32)
    requires
        major < 256,
        minor < 256,
        patch < 256,
    ensures
        (major << 16u32) | (minor << 8u32) | patch == major * 65536 + minor * 256 + patch,
{
    assert((major << 16u32) | (minor << 8u32) | patch == major * 65536 + minor * 256 + patch)
        by (bit_vector)
        requires
            major < 256,
            minor < 256,
            patch < 256,
    ;
}

proof fn lemma_trailing_bounds(s: Seq<char>)
    ensures
        0 <= trailing_non_digits(s) <= s.len(),
    decreases s.len(),
{
    if s.len() > 0 {
        lemma_trailing_bounds(s.drop_last());
    }
}

/// Where the numeric part of `s` begins and ends.
fn numeric_bounds(s: &str) -> (r: (usize, usize))
    ensures
        r.0 <= r.1 <= s@.len(),
        s@.subrange(r.0 as int, r.1 as int) == numeric_part(s@),
{
    let n = s.unicode_len();
    let mut i: usize = 0;
    proof {
        assert(s@.skip(0) =~= s@);
    }
    while i < n && !('0' <= s.get_char(i) && s.get_char(i) <= '9')
        invariant
            n == s@.len(),
            i <= n,
            leading_non_digits(s@) == i + leading_non_digits(s@.skip(i as int)),
        decreases n - i,
    {
        assert(s@.skip(i as int).drop_first() =~= s@.skip(i + 1));
        i = i + 1;
    }
    let start = i;
    proof {
        assert(s@.skip(i as int).len() == 0 || is_digit(s@.skip(i as int)[0]));
        assert(leading_non_digits(s@) == start);
    }
    let ghost w = s@.skip(start as int);
    let mut end = n;
    proof {
        assert(s@.subrange(start as int, end as int) =~= w);
    }
    while end > start && !('0' <= s.get_char(end - 1) && s.get_char(end - 1) <= '9')
        invariant
            n == s@.len(),
            start <= end <= n,
            w == s@.skip(start as int),
            trailing_non_digits(w) == (n - end) + trailing_non_digits(s@.subrange(start as int, end as int)),
        decreases end,
    {
        assert(s@.subrange(start as int, end as int).drop_last() =~= s@.subrange(start as int, end - 1));
        end = end - 1;
    }
    proof {
        let u = s@.subrange(start as int, end as int);
        assert(u.len() == 0 || is_digit(u.last()));
        assert(trailing_non_digits(w) == n - end);
        assert(w.take(w.len() - trailing_non_digits(w)) =~= u);
    }
    (start, end)
}

/// A very lenient version parser that just extracts the first three
/// dot-separated numbers from the version text, ignoring any non-numeric
/// prefix or suffix (the text before the first digit and after the last);
/// each part is read as `str::parse::<u8>` reads it, and one that is missing
/// or not such a number counts as 0.
pub fn parse_version_auv2(version: &str) -> (r: u32)
    ensures
        r as int == spec_parse_version_auv2(version@),
{
    let (start, end) = numeric_bounds(version);
    let numbers = version.substring_char(start, end);
    let n = numbers.unicode_len();
    assert(numbers@.skip(0) =~= numbers@);
    let (major, e1) = part_at(numbers, 0);
    let mut minor: u32 = 0;
    let mut patch: u32 = 0;
    if e1 < n {
        let (mi, e2) = part_at(numbers, e1 + 1);
        minor = mi;
        if e2 < n {
            let (pa, _e3) = part_at(numbers, e2 + 1);
            patch = pa;
        }
    }
    proof {
        lemma_pack(major, minor, patch);
    }
    (major << 16u32) | (minor << 8u32) | patch
}

proof fn lemma_part_value_is_byte(p: Option<Seq<char>>)
    ensures
        0 <= part_value(p) < 256,
{
}

proof fn lemma_unpack(major: int, minor: int, patch: int)
    requires
        0 <= major < 256,
        0 <= minor < 256,
        0 <= patch < 256,
    ensures
        0 <= major * 65536 + minor * 256 + patch < 0x1000000,
        (major * 65536 + minor * 256 + patch) / 65536 == major,
        ((major * 65536 + minor * 256 + patch) / 256) % 256 == minor,
        (major * 65536 + minor * 256 + patch) % 256 == patch,
{
    let v = major * 65536 + minor * 256 + patch;
    assert(v == (major * 256 + minor) * 256 + patch) by (nonlinear_arith)
        requires
            v == major * 65536 + minor * 256 + patch,
    ;
    assert(v / 256 == major * 256 + minor) by (nonlinear_arith)
        requires
            v == (major * 256 + minor) * 256 + patch,
            0 <= patch < 256,
            0 <= major,
            0 <= minor,
    ;
    assert(v % 256 == patch) by (nonlinear_arith)
        requires
            v == (major * 256 + minor) * 256 + patch,
            0 <= patch < 256,
            0 <= major,
            0 <= minor,
    ;
    assert((major * 256 + minor) % 256 == minor) by (nonlinear_arith)
        requires
            0 <= minor < 256,
            0 <= major,
    ;
    assert(v / 65536 == major) by (nonlinear_arith)
        requires
            v == major * 65536 + minor * 256 + patch,
            0 <= minor < 256,
            0 <= patch < 256,
            0 <= major,
    ;
    assert(v < 0x1000000) by (nonlinear_arith)
        requires
            v == major * 65536 + minor * 256 + patch,
            0 <= minor < 256,
            0 <= patch < 256,
            0 <= major < 256,
    ;
}

/// The AUv2 version number keeps the three version numbers apart: it is below
/// 2^24, and its bytes 2, 1 and 0 are the major, minor and patch numbers.
pub proof fn law_version_number_bytes(version: Seq<char>)
    ensures
        ({
            let v = spec_parse_version_auv2(version);
            let (major, minor, patch) = version_numbers(version);
            &&& 0 <= v < 0x1000000
            &&& v / 65536 == major
            &&& (v / 256) % 256 == minor
            &&& v % 256 == patch
        }),
{
    let parts = version_parts(numeric_part(version));
    lemma_part_value_is_byte(parts.0);
    lemma_part_value_is_byte(parts.1);
    lemma_part_value_is_byte(parts.2);
    let (major, minor, patch) = version_numbers(version);
    lemma_unpack(major, minor, patch);
}


proof fn lemma_digit_value(k: nat)
    requires
        k < 10,
    ensures
        is_digit(digit_char(k)),
        digit_char(k) as int - '0' as int == k,
{
}

proof fn lemma_decimal_is_number(n: nat)
    ensures
        decimal(n).len() > 0,
        all_digits(decimal(n)),
        digits_value(decimal(n)) == n,
    decreases n,
{
    lemma_digit_value(n % 10);
    if n >= 10 {
        lemma_decimal_is_number(n / 10);
        let d = decimal(n);
        assert(d.drop_last() =~= decimal(n / 10));
        assert(d.last() == digit_char(n % 10));
        assert(n == (n / 10) * 10 + n % 10);
        assert(digits_value(d) == digits_value(d.drop_last()) * 10 + (d.last() as int - '0' as int));
        assert(digits_value(d.drop_last()) == n / 10);
        assert(digits_value(d) == (n / 10) * 10 + n % 10);
        assert forall|i: int| 0 <= i < d.len() implies is_digit(#[trigger] d[i]) by {
            if i < d.len() - 1 {
                assert(d[i] == decimal(n / 10)[i]);
            }
        }
    } else {
        assert(decimal(n).drop_last() =~= Seq::<char>::empty());
        assert(digits_value(decimal(n)) == digits_value(decimal(n).drop_last()) * 10 + (decimal(n).last() as int - '0' as int));
    }
}

proof fn lemma_parse_decimal(n: u8)
    ensures
        spec_parse_u8(decimal(n as nat)) == Some(n),
        first_index_of(decimal(n as nat), '.') == -1,
{
    let d = decimal(n as nat);
    lemma_decimal_is_number(n as nat);
    assert(is_digit(d[0]));
    lemma_first_index_at(d, '.', d.len() as int);
}

/// The part before the first `.` of `a.b` where `a` is a decimal number.
proof fn lemma_split_after_number(n: u8, rest: Seq<char>)
    ensures
        before_first(decimal(n as nat) + seq!['.'] + rest, '.') == decimal(n as nat),
        after_first(decimal(n as nat) + seq!['.'] + rest, '.') == Some(rest),
{
    let d = decimal(n as nat);
    lemma_decimal_is_number(n as nat);
    assert forall|k: int| 0 <= k < d.len() implies d[k] != '.' by {
        assert(is_digit(d[k]));
    }
    lemma_split_at_first(d, '.', rest);
}

/// The numbers of a plain `major.minor.patch` version are read as they are
/// written.
pub proof fn law_plain_version_numbers(major: u8, minor: u8, patch: u8)
    ensures
        spec_parse_version_auv2(
            decimal(major as nat) + seq!['.'] + decimal(minor as nat) + seq!['.'] + decimal(patch as nat),
        ) == major * 65536 + minor * 256 + patch,
{
    let tail = decimal(minor as nat) + seq!['.'] + decimal(patch as nat);
    let v = decimal(major as nat) + seq!['.'] + decimal(minor as nat) + seq!['.'] + decimal(
        patch as nat,
    );
    assert(v =~= decimal(major as nat) + seq!['.'] + tail);
    let d1 = decimal(major as nat);
    let d2 = decimal(minor as nat);
    let d3 = decimal(patch as nat);
    lemma_decimal_is_number(major as nat);
    lemma_decimal_is_number(minor as nat);
    lemma_decimal_is_number(patch as nat);
    assert(v[0] == d1[0]);
    assert(v.last() == d3.last());
    assert(is_digit(d3[d3.len() - 1]));
    lemma_numeric_text(v);
    lemma_split_after_number(major, tail);
    lemma_split_after_number(minor, decimal(patch as nat));
    lemma_parse_decimal(major);
    lemma_parse_decimal(minor);
    lemma_parse_decimal(patch);
}

proof fn lemma_leading_non_digits_prefix(prefix: Seq<char>, rest: Seq<char>)
    requires
        forall|i: int| 0 <= i < prefix.len() ==> !is_digit(#[trigger] prefix[i]),
        rest.len() > 0,
        is_digit(rest[0]),
    ensures
        leading_non_digits(prefix + rest) == prefix.len(),
    decreases prefix.len(),
{
    if prefix.len() == 0 {
        assert(prefix + rest =~= rest);
    } else {
        assert((prefix + rest).drop_first() =~= prefix.drop_first() + rest);
        assert(!is_digit(prefix[0]));
        assert forall|i: int| 0 <= i < prefix.drop_first().len() implies !is_digit(
            #[trigger] prefix.drop_first()[i],
        ) by {
            assert(prefix.drop_first()[i] == prefix[i + 1]);
        }
        lemma_leading_non_digits_prefix(prefix.drop_first(), rest);
    }
}

proof fn lemma_trailing_non_digits_suffix(rest: Seq<char>, suffix: Seq<char>)
    requires
        forall|i: int| 0 <= i < suffix.len() ==> !is_digit(#[trigger] suffix[i]),
        rest.len() > 0,
        is_digit(rest.last()),
    ensures
        trailing_non_digits(rest + suffix) == suffix.len(),
    decreases suffix.len(),
{
    if suffix.len() == 0 {
        assert(rest + suffix =~= rest);
    } else {
        assert((rest + suffix).drop_last() =~= rest + suffix.drop_last());
        assert(!is_digit(suffix[suffix.len() - 1]));
        assert forall|i: int| 0 <= i < suffix.drop_last().len() implies !is_digit(
            #[trigger] suffix.drop_last()[i],
        ) by {
            assert(suffix.drop_last()[i] == suffix[i]);
        }
        lemma_trailing_non_digits_suffix(rest, suffix.drop_last());
    }
}

/// Text that starts and ends with a digit is its own numeric part.
proof fn lemma_numeric_text(core: Seq<char>)
    requires
        core.len() > 0,
        is_digit(core[0]),
        is_digit(core.last()),
    ensures
        numeric_part(core) == core,
{
    assert(leading_non_digits(core) == 0);
    assert(core.skip(0) =~= core);
    assert(trailing_non_digits(core) == 0);
    assert(core.take(core.len() as int) =~= core);
}

/// A non-numeric prefix and a non-numeric suffix around a version's numbers
/// do not change its AUv2 version number.
pub proof fn law_version_ignores_prefix_and_suffix(prefix: Seq<char>, core: Seq<char>, suffix: Seq<char>)
    requires
        forall|i: int| 0 <= i < prefix.len() ==> !is_digit(#[trigger] prefix[i]),
        core.len() > 0,
        is_digit(core[0]),
        is_digit(core.last()),
        forall|i: int| 0 <= i < suffix.len() ==> !is_digit(#[trigger] suffix[i]),
    ensures
        spec_parse_version_auv2(prefix + core + suffix) == spec_parse_version_auv2(core),
{
    let v = prefix + core + suffix;
    assert(v =~= prefix + (core + suffix));
    assert((core + suffix)[0] == core[0]);
    lemma_leading_non_digits_prefix(prefix, core + suffix);
    assert(v.skip(prefix.len() as int) =~= core + suffix);
    lemma_trailing_non_digits_suffix(core, suffix);
    assert((core + suffix).take(core.len() as int) =~= core);
    lemma_numeric_text(core);
}

} // verus!
