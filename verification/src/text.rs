//! Text helpers: case folding and trimming, byte-level substring search,
//! character prefixes and decimal rendering.

use vstd::prelude::*;
use vstd::string::StringSliceAdditionalSpecFns;

verus! {

/// Whether a character has Unicode's `White_Space` property: the controls
/// U+0009 to U+000D, the space, U+0085, the no-break space, U+1680, the
/// spaces U+2000 to U+200A, the line and paragraph separators, U+202F,
/// U+205F and the ideographic space.
pub open spec fn is_white_space(c: char) -> bool {
    let n = c as u32;
    ||| 0x9 <= n <= 0xd
    ||| n == 0x20
    ||| n == 0x85
    ||| n == 0xa0
    ||| n == 0x1680
    ||| 0x2000 <= n <= 0x200a
    ||| n == 0x2028
    ||| n == 0x2029
    ||| n == 0x202f
    ||| n == 0x205f
    ||| n == 0x3000
}

/// The text without its leading white space.
pub open spec fn trim_start_spec(s: Seq<char>) -> Seq<char>
    decreases s.len(),
{
    if s.len() > 0 && is_white_space(s[0]) {
        trim_start_spec(s.drop_first())
    } else {
        s
    }
}

/// The text without its trailing white space.
pub open spec fn trim_end_spec(s: Seq<char>) -> Seq<char>
    decreases s.len(),
{
    if s.len() > 0 && is_white_space(s.last()) {
        trim_end_spec(s.drop_last())
    } else {
        s
    }
}

/// The text without its leading and trailing white space.
pub open spec fn trim_spec(s: Seq<char>) -> Seq<char> {
    trim_end_spec(trim_start_spec(s))
}

/// `str::to_lowercase`: the Unicode lowercase mapping of the text.
pub uninterp spec fn str_to_lowercase(s: Seq<char>) -> Seq<char>;

/// `str::trim`: the text without the leading and trailing characters that
/// have Unicode's `White_Space` property, as std documents it.
#[verifier::external_body]
pub(crate) fn trim(s: &str) -> (r: &str)
    ensures
        r@ == trim_spec(s@),
{
    s.trim()
}

/// `str::to_lowercase`: each character mapped by Unicode's lowercase
/// mapping, with std's one context rule (a capital sigma at the end of a
/// word becomes the final sigma). The mapping is not written out here; the
/// result is named by `str_to_lowercase`.
#[verifier::external_body]
pub(crate) fn to_lowercase(s: &str) -> (r: String)
    ensures
        r@ == str_to_lowercase(s@),
{
    s.to_lowercase()
}

// ── Byte-level substring search ─────────────────────────────────────────────

/// Whether `needle` occurs in `hay` at byte `i`.
pub open spec fn occurs_at(hay: Seq<u8>, needle: Seq<u8>, i: int) -> bool {
    &&& 0 <= i
    &&& i + needle.len() <= hay.len()
    &&& hay.subrange(i, i + needle.len()) == needle
}

/// The first byte index at or after `from` where `needle` occurs in `hay`.
pub open spec fn first_occurrence_from(hay: Seq<u8>, needle: Seq<u8>, from: int) -> Option<int>
    decreases hay.len() + 1 - from,
{
    if from < 0 || from + needle.len() > hay.len() {
        None
    } else if occurs_at(hay, needle, from) {
        Some(from)
    } else {
        first_occurrence_from(hay, needle, from + 1)
    }
}

/// Whether `needle` occurs anywhere in `hay`.
pub open spec fn contains_bytes(hay: Seq<u8>, needle: Seq<u8>) -> bool {
    first_occurrence_from(hay, needle, 0) is Some
}

/// A first occurrence is an occurrence, and nothing between `from` and it
/// is one.
pub proof fn lemma_first_occurrence(hay: Seq<u8>, needle: Seq<u8>, from: int)
    requires
        0 <= from,
    ensures
        first_occurrence_from(hay, needle, from) matches Some(i) ==> {
            &&& from <= i
            &&& occurs_at(hay, needle, i)
            &&& forall|k: int| from <= k < i ==> !occurs_at(hay, needle, k)
        },
        first_occurrence_from(hay, needle, from) is None ==> forall|k: int|
            from <= k ==> !occurs_at(hay, needle, k),
    decreases hay.len() + 1 - from,
{
    if from + needle.len() <= hay.len() && !occurs_at(hay, needle, from) {
        lemma_first_occurrence(hay, needle, from + 1);
        assert forall|k: int| from <= k && k < from + 1 implies !occurs_at(hay, needle, k) by {}
    }
}

fn occurs_at_exec(hay: &[u8], needle: &[u8], i: usize) -> (r: bool)
    requires
        i + needle@.len() <= hay@.len(),
    ensures
        r == occurs_at(hay@, needle@, i as int),
{
    let n = needle.len();
    let hl = hay.len();
    let mut j: usize = 0;
    while j < n
        invariant
            n == needle@.len(),
            hl == hay@.len(),
            i + n <= hay@.len(),
            j <= n,
            forall|k: int| 0 <= k < j ==> hay@[i + k] == needle@[k],
        decreases n - j,
    {
        if hay[i + j] != needle[j] {
            assert(hay@.subrange(i as int, i + n)[j as int] != needle@[j as int]);
            return false;
        }
        j = j + 1;
    }
    assert(hay@.subrange(i as int, i + n) =~= needle@);
    true
}

/// The first byte index at or after `from` where `needle` occurs in `hay`.
pub fn find_bytes_from(hay: &[u8], needle: &[u8], from: usize) -> (r: Option<usize>)
    ensures
        r matches Some(i) ==> first_occurrence_from(hay@, needle@, from as int) == Some(i as int),
        r is None ==> first_occurrence_from(hay@, needle@, from as int) is None,
{
    let n = needle.len();
    let len = hay.len();
    if n > len || from > len - n {
        return None;
    }
    if n == 0 {
        assert(hay@.subrange(from as int, from as int) =~= needle@);
        return Some(from);
    }
    let mut i = from;
    while i <= len - n
        invariant
            n == needle@.len(),
            len == hay@.len(),
            1 <= n <= len,
            from <= i <= len - n + 1,
            first_occurrence_from(hay@, needle@, from as int) == first_occurrence_from(hay@, needle@, i as int),
        decreases len - i,
    {
        if occurs_at_exec(hay, needle, i) {
            return Some(i);
        }
        i = i + 1;
    }
    None
}

/// Whether `needle` occurs in `hay`, compared byte by byte on their UTF-8
/// encodings.
pub fn contains_str(hay: &str, needle: &str) -> (r: bool)
    ensures
        r == contains_bytes(hay.spec_bytes(), needle.spec_bytes()),
{
    find_bytes_from(hay.as_bytes(), needle.as_bytes(), 0).is_some()
}

// ── Characters and digits ───────────────────────────────────────────────────

/// The first `n` characters of `s`, or all of them where it has fewer.
pub open spec fn char_prefix(s: Seq<char>, n: nat) -> Seq<char> {
    if s.len() <= n {
        s
    } else {
        s.subrange(0, n as int)
    }
}

/// The first `n` characters of `s` (all of them where it has fewer).
pub fn take_chars(s: &str, n: usize) -> (r: String)
    ensures
        r@ == char_prefix(s@, n as nat),
{
    let len = s.unicode_len();
    let k = if len <= n {
        len
    } else {
        n
    };
    let prefix = s.substring_char(0, k);
    proof {
        if len <= n {
            assert(s@.subrange(0, k as int) =~= s@);
        }
    }
    String::from_str(prefix)
}

/// The decimal digit character of `d` in `0..10`.
pub open spec fn decimal_digit(d: int) -> char {
    (48 + d) as char
}

/// The decimal representation of `n`, without leading zeros.
pub open spec fn decimal_spec(n: nat) -> Seq<char>
    decreases n,
{
    if n < 10 {
        seq![decimal_digit(n as int)]
    } else {
        decimal_spec(n / 10) + seq![decimal_digit((n % 10) as int)]
    }
}

fn digit_str(d: u64) -> (s: &'static str)
    requires
        d < 10,
    ensures
        s@ == seq![decimal_digit(d as int)],
{
    let table = "0123456789";
    proof {
        reveal_strlit("0123456789");
    }
    let s = table.substring_ascii(d as usize, d as usize + 1);
    assert(s@ =~= seq![decimal_digit(d as int)]);
    s
}

/// The decimal representation of `n`.
pub fn decimal(n: u64) -> (s: String)
    ensures
        s@ == decimal_spec(n as nat),
    decreases n,
{
    if n < 10 {
        String::from_str(digit_str(n))
    } else {
        let mut s = decimal(n / 10);
        s.append(digit_str(n % 10));
        s
    }
}

/// `2` to the power `s`.
pub open spec fn two_pow(s: nat) -> nat
    decreases s,
{
    if s == 0 {
        1
    } else {
        2 * two_pow((s - 1) as nat)
    }
}

/// `2^52 * 10^6`: a value `k / 10^6` scaled by `2^s` has 53 binary digits
/// before the point once `k * 2^s` reaches it.
pub open spec fn binary_scale_bound() -> nat {
    4_503_599_627_370_496_000_000
}

/// The least scale `s`, from `from` on and at most 80, at which
/// `k * 2^s` reaches `binary_scale_bound()`.
pub open spec fn binary_scale_from(k: nat, from: nat) -> nat
    decreases 80 - from,
{
    if from >= 80 || k * two_pow(from) >= binary_scale_bound() {
        from
    } else {
        binary_scale_from(k, from + 1)
    }
}

/// Whether a value `k / 10^6` that lies halfway between two hundredths is
/// written with the upper one by `{:.2}` applied to the double nearest to
/// it. With `n = k * 2^s` at the binary scale `s`, the double's 53-bit
/// significand is `n / 10^6` rounded to nearest, ties to even; the double
/// lies below the value where it is rounded down with a remainder, above
/// where it is rounded up, and on it where the remainder is zero, in which
/// case the written digits round half to even.
pub open spec fn tie_rounds_up(k: nat) -> bool {
    let n = k * two_pow(binary_scale_from(k, 0));
    let t = n % 1_000_000;
    if t == 0 {
        (k / 10_000) % 2 == 1
    } else if t < 500_000 {
        false
    } else if t > 500_000 {
        true
    } else {
        (n / 1_000_000) % 2 == 1
    }
}

/// The hundredths that `{:.2}` writes for the double nearest to
/// `millionths / 10^6`: the nearer hundredth, and at a tie the one on the
/// double's side.
pub open spec fn hundredths_spec(millionths: nat) -> nat {
    let q = millionths / 10_000;
    let rem = millionths % 10_000;
    if rem > 5_000 || (rem == 5_000 && tie_rounds_up(millionths)) {
        q + 1
    } else {
        q
    }
}

/// A millionths fixed-point value written with two decimals,
/// `<integer>.<two digits>`, as `{:.2}` writes the double nearest to it.
pub open spec fn two_decimals_spec(millionths: nat) -> Seq<char> {
    let hundredths = hundredths_spec(millionths);
    let frac = hundredths % 100;
    decimal_spec(hundredths / 100) + "."@ + seq![decimal_digit((frac / 10) as int), decimal_digit((frac % 10) as int)]
}

/// Whether `{:.2}` writes the upper hundredth for a value halfway between
/// two.
fn tie_rounds_up_exec(k: u32) -> (r: bool)
    ensures
        r == tie_rounds_up(k as nat),
{
    if k == 0 {
        return false;
    }
    let bound: u128 = 4_503_599_627_370_496_000_000;
    let kk: u128 = k as u128;
    let mut s: u32 = 0;
    let mut p: u128 = 1;
    while s < 80 && kk * p < bound
        invariant
            1 <= kk < 0x1_0000_0000,
            kk == k as u128,
            bound == binary_scale_bound(),
            s <= 80,
            p == two_pow(s as nat),
            p <= 2 * bound,
            kk * p <= 0xffff_ffff * (2 * 4_503_599_627_370_496_000_000),
            binary_scale_from(k as nat, s as nat) == binary_scale_from(k as nat, 0),
        decreases 80 - s,
    {
        assert(p < bound) by (nonlinear_arith)
            requires
                kk * p < bound,
                1 <= kk,
        ;
        assert(binary_scale_from(k as nat, s as nat) == binary_scale_from(k as nat, (s + 1) as nat));
        assert(two_pow((s + 1) as nat) == 2 * two_pow(s as nat));
        p = p * 2;
        s = s + 1;
        assert(kk * p <= 0xffff_ffff * (2 * 4_503_599_627_370_496_000_000)) by (nonlinear_arith)
            requires
                kk < 0x1_0000_0000,
                p <= 2 * 4_503_599_627_370_496_000_000,
        ;
    }
    let n: u128 = kk * p;
    let t = n % 1_000_000;
    if t == 0 {
        (k / 10_000) % 2 == 1
    } else if t < 500_000 {
        false
    } else if t > 500_000 {
        true
    } else {
        (n / 1_000_000) % 2 == 1
    }
}

/// A millionths fixed-point value written with two decimals, as `{:.2}`
/// writes the double nearest to it.
pub fn two_decimals(millionths: u32) -> (s: String)
    ensures
        s@ == two_decimals_spec(millionths as nat),
{
    let q: u64 = millionths as u64 / 10_000;
    let rem = millionths % 10_000;
    let hundredths: u64 = if rem > 5_000 || (rem == 5_000 && tie_rounds_up_exec(millionths)) {
        q + 1
    } else {
        q
    };
    let frac = hundredths % 100;
    let mut s = decimal(hundredths / 100);
    let dot = ".";
    proof {
        reveal_strlit(".");
    }
    s.append(dot);
    s.append(digit_str(frac / 10));
    s.append(digit_str(frac % 10));
    s
}

// ── Joining ─────────────────────────────────────────────────────────────────

/// The texts joined with `sep` between them.
pub open spec fn join_with(parts: Seq<Seq<char>>, sep: Seq<char>) -> Seq<char>
    decreases parts.len(),
{
    if parts.len() == 0 {
        Seq::empty()
    } else if parts.len() == 1 {
        parts[0]
    } else {
        join_with(parts.drop_last(), sep) + sep + parts.last()
    }
}

/// The characters of each string.
pub open spec fn string_views(strings: Seq<String>) -> Seq<Seq<char>> {
    strings.map_values(|s: String| s@)
}

/// The strings joined with `sep` between them.
pub fn join_strings(parts: &Vec<String>, sep: &str) -> (r: String)
    ensures
        r@ == join_with(string_views(parts@), sep@),
{
    let mut r = String::new();
    let n = parts.len();
    for i in 0..n
        invariant
            n == parts@.len(),
            r@ == join_with(string_views(parts@.take(i as int)), sep@),
    {
        proof {
            let pre = string_views(parts@.take(i + 1));
            assert(pre.drop_last() =~= string_views(parts@.take(i as int)));
            assert(pre.last() == parts@[i as int]@);
        }
        if i > 0 {
            r.append(sep);
        } else {
            assert(string_views(parts@.take(0)) =~= Seq::<Seq<char>>::empty());
        }
        r.append(parts[i].as_str());
    }
    assert(parts@.take(n as int) =~= parts@);
    r
}

} // verus!
