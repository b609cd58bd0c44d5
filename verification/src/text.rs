//! String-level building blocks: decimal rendering and parsing of unsigned
//! integers, JSON string escaping, and character-exact comparison, suffix,
//! search and split operations, each against a sequence-level description.

use vstd::prelude::*;

verus! {

/// The decimal digit character for a value below ten.
pub open spec fn dec_digit(d: nat) -> char {
    if d == 0 {
        '0'
    } else if d == 1 {
        '1'
    } else if d == 2 {
        '2'
    } else if d == 3 {
        '3'
    } else if d == 4 {
        '4'
    } else if d == 5 {
        '5'
    } else if d == 6 {
        '6'
    } else if d == 7 {
        '7'
    } else if d == 8 {
        '8'
    } else {
        '9'
    }
}

/// The usual decimal rendering of `n`, without a sign and without leading
/// zeros (except for `n == 0`, which renders as "0").
pub open spec fn dec_of(n: nat) -> Seq<char>
    decreases n,
{
    if n < 10 {
        seq![dec_digit(n)]
    } else {
        dec_of(n / 10) + seq![dec_digit(n % 10)]
    }
}

/// Relies on String::push: appends exactly one character at the end.
#[verifier::external_body]
pub(crate) fn push_char(s: &mut String, c: char)
    ensures
        final(s)@ == old(s)@ + seq![c],
{
    s.push(c);
}

fn digit_char(d: u64) -> (c: char)
    requires
        d < 10,
    ensures
        c == dec_digit(d as nat),
{
    if d == 0 {
        '0'
    } else if d == 1 {
        '1'
    } else if d == 2 {
        '2'
    } else if d == 3 {
        '3'
    } else if d == 4 {
        '4'
    } else if d == 5 {
        '5'
    } else if d == 6 {
        '6'
    } else if d == 7 {
        '7'
    } else if d == 8 {
        '8'
    } else {
        '9'
    }
}

/// Renders `n` in decimal.
pub fn u64_to_string(n: u64) -> (r: String)
    ensures
        r@ == dec_of(n as nat),
    decreases n,
{
    if n < 10 {
        let mut s = String::new();
        push_char(&mut s, digit_char(n));
        s
    } else {
        let mut s = u64_to_string(n / 10);
        push_char(&mut s, digit_char(n % 10));
        s
    }
}

/// Character-wise string equality.
pub fn str_eq(a: &str, b: &str) -> (r: bool)
    ensures
        r == (a@ == b@),
{
    let n = a.unicode_len();
    let m = b.unicode_len();
    if n != m {
        return false;
    }
    let mut i: usize = 0;
    while i < n
        invariant
            i <= n,
            n == a@.len(),
            n == b@.len(),
            forall|j: int| 0 <= j < i ==> a@[j] == b@[j],
        decreases n - i,
    {
        if a.get_char(i) != b.get_char(i) {
            return false;
        }
        i = i + 1;
    }
    proof {
        assert(a@ =~= b@);
    }
    true
}

/// Whether `suffix` stands at the end of `s`.
pub open spec fn ends_with(s: Seq<char>, suffix: Seq<char>) -> bool {
    s.len() >= suffix.len() && s.skip(s.len() - suffix.len()) == suffix
}

/// Character-wise suffix test.
pub fn str_ends_with(s: &str, suffix: &str) -> (r: bool)
    ensures
        r == ends_with(s@, suffix@),
{
    let n = s.unicode_len();
    let m = suffix.unicode_len();
    if n < m {
        return false;
    }
    let mut i: usize = 0;
    while i < m
        invariant
            i <= m,
            m <= n,
            n == s@.len(),
            m == suffix@.len(),
            forall|j: int| 0 <= j < i ==> s@[n - m + j] == suffix@[j],
        decreases m - i,
    {
        if s.get_char(n - m + i) != suffix.get_char(i) {
            proof {
                assert(s@.skip(n - m)[i as int] != suffix@[i as int]);
            }
            return false;
        }
        i = i + 1;
    }
    proof {
        assert(s@.skip(n - m) =~= suffix@);
    }
    true
}

/// The lower-case hexadecimal digit character for a value below sixteen.
pub open spec fn hex_digit(d: nat) -> char {
    if d < 10 {
        dec_digit(d)
    } else if d == 10 {
        'a'
    } else if d == 11 {
        'b'
    } else if d == 12 {
        'c'
    } else if d == 13 {
        'd'
    } else if d == 14 {
        'e'
    } else {
        'f'
    }
}

/// How one character is written inside a JSON string literal: quotes and
/// backslashes get a backslash escape, other control characters a `\u00xx`
/// escape, and everything else stands for itself.
pub open spec fn esc_char(c: char) -> Seq<char> {
    if c == '"' {
        seq!['\\', '"']
    } else if c == '\\' {
        seq!['\\', '\\']
    } else if (c as nat) < 32 {
        seq!['\\', 'u', '0', '0', hex_digit((c as nat) / 16), hex_digit((c as nat) % 16)]
    } else {
        seq![c]
    }
}

/// The body of a JSON string literal holding the characters of `s`.
pub open spec fn json_escaped(s: Seq<char>) -> Seq<char>
    decreases s.len(),
{
    if s.len() == 0 {
        Seq::empty()
    } else {
        json_escaped(s.drop_last()) + esc_char(s.last())
    }
}

fn hex_char(d: u32) -> (c: char)
    requires
        d < 16,
    ensures
        c == hex_digit(d as nat),
{
    if d < 10 {
        digit_char(d as u64)
    } else if d == 10 {
        'a'
    } else if d == 11 {
        'b'
    } else if d == 12 {
        'c'
    } else if d == 13 {
        'd'
    } else if d == 14 {
        'e'
    } else {
        'f'
    }
}

fn append_escaped_char(out: &mut String, c: char)
    ensures
        final(out)@ == old(out)@ + esc_char(c),
{
    if c == '"' {
        push_char(out, '\\');
        push_char(out, '"');
        assert(old(out)@ + seq!['\\'] + seq!['"'] =~= old(out)@ + esc_char(c));
    } else if c == '\\' {
        push_char(out, '\\');
        push_char(out, '\\');
        assert(old(out)@ + seq!['\\'] + seq!['\\'] =~= old(out)@ + esc_char(c));
    } else if (c as u32) < 32 {
        let v = c as u32;
        push_char(out, '\\');
        push_char(out, 'u');
        push_char(out, '0');
        push_char(out, '0');
        push_char(out, hex_char(v / 16));
        push_char(out, hex_char(v % 16));
        assert(old(out)@ + seq!['\\'] + seq!['u'] + seq!['0'] + seq!['0']
            + seq![hex_digit((c as nat) / 16)] + seq![hex_digit((c as nat) % 16)]
            =~= old(out)@ + esc_char(c));
    } else {
        push_char(out, c);
        assert(old(out)@ + seq![c] =~= old(out)@ + esc_char(c));
    }
}

/// Appends to `out` the body of a JSON string literal holding the characters
/// of `s`.
pub fn append_json_escaped(out: &mut String, s: &str)
    ensures
        final(out)@ == old(out)@ + json_escaped(s@),
{
    let n = s.unicode_len();
    let mut i: usize = 0;
    while i < n
        invariant
            i <= n,
            n == s@.len(),
            out@ == old(out)@ + json_escaped(s@.take(i as int)),
        decreases n - i,
    {
        let c = s.get_char(i);
        append_escaped_char(out, c);
        proof {
            assert(s@.take(i + 1).drop_last() =~= s@.take(i as int));
            assert(s@.take(i + 1).last() == s@[i as int]);
        }
        i = i + 1;
    }
    proof {
        assert(s@.take(n as int) =~= s@);
    }
}

/// A decimal digit character.
pub open spec fn is_dec_digit(c: char) -> bool {
    '0' <= c && c <= '9'
}

/// The value of a decimal digit character.
pub open spec fn digit_val(c: char) -> nat
    recommends
        is_dec_digit(c),
{
    (c as int - '0' as int) as nat
}

/// Every character a decimal digit.
pub open spec fn all_dec_digits(s: Seq<char>) -> bool {
    forall|i: int| 0 <= i < s.len() ==> is_dec_digit(#[trigger] s[i])
}

/// The number a digit string denotes (0 for the empty string).
pub open spec fn dec_val(s: Seq<char>) -> nat
    decreases s.len(),
{
    if s.len() == 0 {
        0
    } else {
        dec_val(s.drop_last()) * 10 + digit_val(s.last())
    }
}

/// The texts `u64` parsing accepts: at least one digit, digits only, and a
/// value that fits.
pub open spec fn valid_u64_text(s: Seq<char>) -> bool {
    s.len() > 0 && all_dec_digits(s) && dec_val(s) <= u64::MAX
}

/// Law (decimal round trip): rendering a number and reading the digits
/// back gives the number itself, and the rendering is digits only.
pub proof fn lemma_dec_round_trip(n: nat)
    ensures
        dec_of(n).len() > 0,
        all_dec_digits(dec_of(n)),
        dec_val(dec_of(n)) == n,
    decreases n,
{
    if n < 10 {
        let s = seq![dec_digit(n)];
        assert(s.drop_last() =~= Seq::<char>::empty());
        assert(dec_val(s) == dec_val(s.drop_last()) * 10 + digit_val(s.last()));
        assert(dec_val(s) == n);
        assert(all_dec_digits(s));
    } else {
        lemma_dec_round_trip(n / 10);
        let s = dec_of(n / 10) + seq![dec_digit(n % 10)];
        assert(s.drop_last() =~= dec_of(n / 10));
        assert(s.last() == dec_digit(n % 10));
        assert(digit_val(dec_digit(n % 10)) == n % 10);
        assert(dec_val(s) == (n / 10) * 10 + n % 10);
        assert((n / 10) * 10 + n % 10 == n) by {
            vstd::arithmetic::div_mod::lemma_fundamental_div_mod(n as int, 10);
        }
        assert(all_dec_digits(s)) by {
            assert(forall|i: int|
                0 <= i < s.len() - 1 ==> s[i] == dec_of(n / 10)[i] && is_dec_digit(#[trigger] s[i]));
            assert(is_dec_digit(s[s.len() - 1]));
        }
    }
}

proof fn lemma_dec_val_prefix_grows(s: Seq<char>, i: int)
    requires
        0 <= i <= s.len(),
    ensures
        dec_val(s.take(i)) <= dec_val(s),
    decreases s.len() - i,
{
    if i < s.len() {
        assert(s.take(i + 1).drop_last() =~= s.take(i));
        assert(dec_val(s.take(i)) <= dec_val(s.take(i + 1)));
        lemma_dec_val_prefix_grows(s, i + 1);
    } else {
        assert(s.take(i) =~= s);
    }
}

proof fn lemma_mul10_fits(acc: u64, d: u64)
    requires
        d < 10,
    ensures
        (acc <= (u64::MAX - d) / 10) <==> (acc as nat * 10 + d as nat <= u64::MAX as nat),
{
    let m = (u64::MAX - d) as int;
    vstd::arithmetic::div_mod::lemma_fundamental_div_mod(m, 10);
    vstd::arithmetic::div_mod::lemma_div_multiples_vanish(acc as int, 10);
    assert(0 <= m % 10 < 10) by {
        vstd::arithmetic::div_mod::lemma_mod_bound(m, 10);
    }
    if acc as int <= m / 10 {
        assert(10 * (acc as int) <= 10 * (m / 10)) by {
            vstd::arithmetic::mul::lemma_mul_inequality(acc as int, m / 10, 10);
        }
    }
    if 10 * (acc as int) <= m {
        assert(acc as int == (10 * (acc as int)) / 10);
        assert((10 * (acc as int)) / 10 <= m / 10) by {
            vstd::arithmetic::div_mod::lemma_div_is_ordered(10 * (acc as int), m, 10);
        }
    }
}

/// Parses a decimal `u64`: succeeds exactly on non-empty all-digit strings
/// whose value fits, and returns that value.
pub fn parse_u64(s: &str) -> (r: Option<u64>)
    ensures
        match r {
            Some(v) => valid_u64_text(s@) && v == dec_val(s@),
            None => !valid_u64_text(s@),
        },
{
    let n = s.unicode_len();
    if n == 0 {
        return None;
    }
    let mut acc: u64 = 0;
    let mut i: usize = 0;
    while i < n
        invariant
            0 < n == s@.len(),
            i <= n,
            all_dec_digits(s@.take(i as int)),
            acc == dec_val(s@.take(i as int)),
        decreases n - i,
    {
        let c = s.get_char(i);
        if c < '0' || c > '9' {
            return None;
        }
        let d: u64 = (c as u32 as u64) - ('0' as u32 as u64);
        assert(d == digit_val(c));
        if acc > (u64::MAX - d) / 10 {
            proof {
                lemma_mul10_fits(acc, d);
                assert(s@.take(i + 1).drop_last() =~= s@.take(i as int));
                assert(dec_val(s@.take(i + 1)) > u64::MAX);
                lemma_dec_val_prefix_grows(s@, i + 1);
            }
            return None;
        }
        proof {
            lemma_mul10_fits(acc, d);
            assert(s@.take(i + 1).drop_last() =~= s@.take(i as int));
        }
        acc = acc * 10 + d;
        i = i + 1;
    }
    proof {
        assert(s@.take(n as int) =~= s@);
    }
    Some(acc)
}

/// Renders a boolean as its keyword.
pub fn bool_to_string(b: bool) -> (r: String)
    ensures
        r@ == (if b {
            "true"@
        } else {
            "false"@
        }),
{
    if b {
        String::from_str("true")
    } else {
        String::from_str("false")
    }
}

/// Parses a boolean: exactly the two keywords.
pub fn parse_bool(s: &str) -> (r: Option<bool>)
    ensures
        match r {
            Some(b) => (b ==> s@ == "true"@) && (!b ==> s@ == "false"@),
            None => s@ != "true"@ && s@ != "false"@,
        },
{
    if str_eq(s, "true") {
        Some(true)
    } else if str_eq(s, "false") {
        Some(false)
    } else {
        None
    }
}

/// The index of the first occurrence of `sep` in `s`, or -1.
pub open spec fn find_char(s: Seq<char>, sep: char) -> int
    decreases s.len(),
{
    if s.len() == 0 {
        -1
    } else if s[0] == sep {
        0
    } else {
        let r = find_char(s.skip(1), sep);
        if r == -1 {
            -1
        } else {
            r + 1
        }
    }
}

/// What `find_char` means: -1 when `sep` does not occur, else the first
/// index holding it.
pub proof fn lemma_find_char(s: Seq<char>, sep: char)
    ensures
        find_char(s, sep) == -1 ==> forall|i: int| 0 <= i < s.len() ==> s[i] != sep,
        find_char(s, sep) != -1 ==> {
            let r = find_char(s, sep);
            0 <= r < s.len() && s[r] == sep && forall|i: int| 0 <= i < r ==> s[i] != sep
        },
    decreases s.len(),
{
    if s.len() > 0 && s[0] != sep {
        lemma_find_char(s.skip(1), sep);
        assert(forall|i: int| 1 <= i < s.len() ==> s[i] == s.skip(1)[i - 1]);
    }
}

/// Splitting on a separator character: the segments between occurrences,
/// in order; no occurrence gives the one segment `s` itself.
pub open spec fn split_on(s: Seq<char>, sep: char) -> Seq<Seq<char>>
    decreases s.len(),
    via split_on_decreases
{
    let r = find_char(s, sep);
    if r == -1 {
        seq![s]
    } else {
        seq![s.take(r)] + split_on(s.skip(r + 1), sep)
    }
}

#[via_fn]
proof fn split_on_decreases(s: Seq<char>, sep: char) {
    lemma_find_char(s, sep);
}

/// Splitting after a separator-free prefix: the prefix is the first
/// segment, and the rest splits on its own.
pub proof fn lemma_split_on_prefix(a: Seq<char>, b: Seq<char>, sep: char)
    requires
        !a.contains(sep),
    ensures
        split_on(a + seq![sep] + b, sep) == seq![a] + split_on(b, sep),
{
    let s = a + seq![sep] + b;
    lemma_find_char(s, sep);
    assert(s[a.len() as int] == sep);
    let r = find_char(s, sep);
    assert(r != -1);
    assert(forall|i: int| 0 <= i < a.len() ==> s[i] == a[i]);
    assert(forall|i: int| 0 <= i < a.len() ==> s[i] != sep);
    assert(r == a.len());
    assert(s.take(r) =~= a);
    assert(s.skip(r + 1) =~= b);
    assert(split_on(s, sep) == seq![a] + split_on(b, sep));
}

/// The index of the first occurrence of `c`, if any.
pub fn str_find(s: &str, c: char) -> (r: Option<usize>)
    ensures
        match r {
            Some(i) => i == find_char(s@, c),
            None => find_char(s@, c) == -1,
        },
{
    let n = s.unicode_len();
    let mut i: usize = 0;
    while i < n
        invariant
            i <= n,
            n == s@.len(),
            forall|j: int| 0 <= j < i ==> s@[j] != c,
        decreases n - i,
    {
        if s.get_char(i) == c {
            proof {
                lemma_find_char(s@, c);
            }
            return Some(i);
        }
        i = i + 1;
    }
    proof {
        lemma_find_char(s@, c);
    }
    None
}

/// Splits `s` on every occurrence of `sep`.
pub fn str_split(s: &str, sep: char) -> (r: Vec<String>)
    ensures
        r@.map_values(|t: String| t@) == split_on(s@, sep),
{
    let mut out: Vec<String> = Vec::new();
    let mut rest: String = String::from_str(s);
    loop
        invariant
            split_on(s@, sep) == out@.map_values(|t: String| t@) + split_on(rest@, sep),
        decreases rest@.len(),
    {
        let ghost out_pre = out@;
        match str_find(rest.as_str(), sep) {
            Some(i) => {
                let n = rest.as_str().unicode_len();
                proof {
                    lemma_find_char(rest@, sep);
                }
                let piece = String::from_str(rest.as_str().substring_char(0, i));
                let tail = String::from_str(rest.as_str().substring_char(i + 1, n));
                out.push(piece);
                proof {
                    assert(out@.map_values(|t: String| t@) =~= out_pre.map_values(
                        |t: String| t@,
                    ) + seq![rest@.take(i as int)]);
                    assert(rest@.take(i as int) =~= rest@.subrange(0, i as int));
                    assert(tail@ =~= rest@.skip(i + 1));
                    assert(out_pre.map_values(|t: String| t@) + (seq![rest@.take(i as int)]
                        + split_on(tail@, sep)) =~= out@.map_values(|t: String| t@) + split_on(
                        tail@,
                        sep,
                    ));
                }
                rest = tail;
            },
            None => {
                proof {
                    lemma_find_char(rest@, sep);
                }
                out.push(rest);
                proof {
                    assert(out@.map_values(|t: String| t@) =~= out_pre.map_values(
                        |t: String| t@,
                    ) + seq![rest@]);
                    assert(out@.map_values(|t: String| t@) + split_on(
                        Seq::<char>::empty(),
                        sep,
                    ) =~= split_on(s@, sep) + split_on(Seq::<char>::empty(), sep));
                }
                return out;
            },
        }
    }
}

} // verus!
