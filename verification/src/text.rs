//! Character-level helpers shared by the cache codec, the scope handling and
//! the callback parsing: safe-character predicates, decimal rendering and
//! parsing, substring search, and splitting/joining on a separator.
use vstd::prelude::*;
use vstd::string::StrSliceExecFns;
use vstd::string::StringExecFns;

verus! {

/// A character that may stand inside a JSON string without escaping.
pub open spec fn spec_json_safe_char(c: char) -> bool {
    c != '"' && c != '\\' && (c as u32) >= 0x20
}

/// Every character of `s` may stand inside a JSON string without escaping.
pub open spec fn spec_json_safe(s: Seq<char>) -> bool {
    forall|i: int| 0 <= i < s.len() ==> spec_json_safe_char(#[trigger] s[i])
}

/// Runtime check for [`spec_json_safe`].
pub fn is_json_safe(s: &str) -> (r: bool)
    ensures
        r == spec_json_safe(s@),
{
    let len = s.unicode_len();
    let mut i: usize = 0;
    while i < len
        invariant
            0 <= i <= len,
            len == s@.len(),
            forall|j: int| 0 <= j < i ==> spec_json_safe_char(#[trigger] s@[j]),
        decreases len - i,
    {
        let c = s.get_char(i);
        if c == '"' || c == '\\' || (c as u32) < 0x20 {
            return false;
        }
        i += 1;
    }
    true
}

// ---------------------------------------------------------------------------
// Decimal digits
// ---------------------------------------------------------------------------

pub open spec fn spec_is_digit(c: char) -> bool {
    48 <= (c as u32) <= 57
}

pub open spec fn spec_digit_val(c: char) -> int {
    (c as u32) - 48
}

pub open spec fn spec_digit_char(d: int) -> char {
    if d == 0 {
        '0'
    } else if d == 1 {
        '1'
    } else if d == 2 {
        '2'
    } else if d == 3 {
        '3'
    } else if d == 4 {
        '4'
    } else if d == 5 {
        '5'
    } else if d == 6 {
        '6'
    } else if d == 7 {
        '7'
    } else if d == 8 {
        '8'
    } else {
        '9'
    }
}

/// The canonical base-10 rendering of `n`, without leading zeros.
pub open spec fn spec_digits(n: nat) -> Seq<char>
    decreases n,
{
    if n < 10 {
        seq![spec_digit_char(n as int)]
    } else {
        spec_digits(n / 10) + seq![spec_digit_char((n % 10) as int)]
    }
}

/// The value of a digit sequence, most significant digit first.
pub open spec fn spec_digits_val(s: Seq<char>) -> int
    decreases s.len(),
{
    if s.len() == 0 {
        0
    } else {
        spec_digits_val(s.drop_last()) * 10 + spec_digit_val(s.last())
    }
}

proof fn lemma_digit_char_val(d: int)
    requires
        0 <= d < 10,
    ensures
        spec_is_digit(spec_digit_char(d)),
        spec_digit_val(spec_digit_char(d)) == d,
{
}

/// Rendering `n` and reading the digits back yields `n`; the rendering is
/// non-empty, consists of digits, and has no leading zero.
pub proof fn lemma_digits_roundtrip(n: nat)
    ensures
        spec_digits(n).len() >= 1,
        spec_digits_val(spec_digits(n)) == n,
        forall|i: int|
            0 <= i < spec_digits(n).len() ==> spec_is_digit(#[trigger] spec_digits(n)[i]),
        spec_digits(n)[0] == '0' ==> spec_digits(n).len() == 1,
    decreases n,
{
    if n < 10 {
        lemma_digit_char_val(n as int);
        let whole = spec_digits(n);
        assert(whole =~= seq![spec_digit_char(n as int)]);
        assert(whole.drop_last() =~= Seq::<char>::empty());
        assert(spec_digits_val(whole.drop_last()) == 0);
        assert(whole.last() == spec_digit_char(n as int));
        assert(spec_digits_val(whole) == 0 * 10 + spec_digit_val(spec_digit_char(n as int)));
    } else {
        lemma_digits_roundtrip(n / 10);
        lemma_digit_char_val((n % 10) as int);
        let a = spec_digits(n / 10);
        let whole = spec_digits(n);
        assert(whole =~= a + seq![spec_digit_char((n % 10) as int)]);
        assert(whole.drop_last() =~= a);
        assert(whole.last() == spec_digit_char((n % 10) as int));
        assert(whole[0] == a[0]);
        assert(spec_digits_val(whole) == spec_digits_val(a) * 10 + spec_digit_val(
            spec_digit_char((n % 10) as int),
        ));
        assert(spec_digits_val(whole) == (n / 10) * 10 + (n % 10));
        assert(n == 10 * (n / 10) + (n % 10)) by {
            vstd::arithmetic::div_mod::lemma_fundamental_div_mod(n as int, 10);
        }
        assert(forall|d: int| 1 <= d < 10 ==> spec_digit_char(d) != '0');
        if whole[0] == '0' {
            assert(a[0] == '0');
            assert(a.len() == 1);
            assert(a.drop_last() =~= Seq::<char>::empty());
            assert(a.last() == a[0]);
            assert(spec_digits_val(a) == spec_digits_val(a.drop_last()) * 10 + spec_digit_val(
                a.last(),
            ));
            assert(spec_digits_val(Seq::<char>::empty()) == 0);
            assert(spec_digit_val('0') == 0);
            assert(n / 10 >= 1) by {
                vstd::arithmetic::div_mod::lemma_div_is_ordered(10, n as int, 10);
            }
            assert(false);
        }
    }
}

fn digit_str(d: u64) -> (r: &'static str)
    requires
        d < 10,
    ensures
        r@ =~= seq![spec_digit_char(d as int)],
{
    proof {
        reveal_strlit("0");
        reveal_strlit("1");
        reveal_strlit("2");
        reveal_strlit("3");
        reveal_strlit("4");
        reveal_strlit("5");
        reveal_strlit("6");
        reveal_strlit("7");
        reveal_strlit("8");
        reveal_strlit("9");
    }
    if d == 0 {
        "0"
    } else if d == 1 {
        "1"
    } else if d == 2 {
        "2"
    } else if d == 3 {
        "3"
    } else if d == 4 {
        "4"
    } else if d == 5 {
        "5"
    } else if d == 6 {
        "6"
    } else if d == 7 {
        "7"
    } else if d == 8 {
        "8"
    } else {
        "9"
    }
}

/// Renders `n` in base 10, matching [`spec_digits`].
pub fn u64_to_string(n: u64) -> (r: String)
    ensures
        r@ == spec_digits(n as nat),
    decreases n,
{
    if n < 10 {
        digit_str(n).to_owned()
    } else {
        let mut s = u64_to_string(n / 10);
        s.append(digit_str(n % 10));
        proof {
            assert(s@ =~= spec_digits((n / 10) as nat) + seq![spec_digit_char((n % 10) as int)]);
        }
        s
    }
}

/// End of the run of digit characters starting at `from`.
pub open spec fn spec_digit_run_end(s: Seq<char>, from: int) -> int
    decreases s.len() - from,
{
    if from < 0 || from >= s.len() || !spec_is_digit(s[from]) {
        from
    } else {
        spec_digit_run_end(s, from + 1)
    }
}

pub proof fn lemma_digit_run_props(s: Seq<char>, from: int)
    requires
        0 <= from <= s.len(),
    ensures
        from <= spec_digit_run_end(s, from) <= s.len(),
        forall|j: int| from <= j < spec_digit_run_end(s, from) ==> spec_is_digit(#[trigger] s[j]),
        spec_digit_run_end(s, from) < s.len() ==> !spec_is_digit(s[spec_digit_run_end(s, from)]),
    decreases s.len() - from,
{
    if from < s.len() && spec_is_digit(s[from]) {
        lemma_digit_run_props(s, from + 1);
    }
}

/// A position with the digit-run properties is `spec_digit_run_end`.
pub proof fn lemma_digit_run_unique(s: Seq<char>, from: int, e: int)
    requires
        0 <= from <= e <= s.len(),
        forall|j: int| from <= j < e ==> spec_is_digit(#[trigger] s[j]),
        e < s.len() ==> !spec_is_digit(s[e]),
    ensures
        spec_digit_run_end(s, from) == e,
    decreases e - from,
{
    if from < e {
        lemma_digit_run_unique(s, from + 1, e);
    }
}

/// The value of a digit sequence is nonnegative and no prefix exceeds it.
proof fn lemma_digits_val_bounds(w: Seq<char>, i: int)
    requires
        0 <= i <= w.len(),
        forall|j: int| 0 <= j < w.len() ==> spec_is_digit(#[trigger] w[j]),
    ensures
        spec_digits_val(w) >= spec_digits_val(w.take(i)) >= 0,
    decreases w.len(),
{
    if w.len() == 0 {
        assert(w.take(i) =~= w);
    } else {
        let a = w.drop_last();
        assert(forall|j: int| 0 <= j < a.len() ==> a[j] == w[j]);
        lemma_digits_val_bounds(a, if i <= a.len() { i } else { a.len() as int });
        assert(a.take(a.len() as int) =~= a);
        assert(spec_digits_val(a) >= 0);
        assert(spec_digit_val(w.last()) >= 0);
        assert(spec_digits_val(w) >= spec_digits_val(a));
        if i <= a.len() {
            assert(a.take(i) =~= w.take(i));
        } else {
            assert(w.take(i) =~= w);
        }
    }
}

/// The parse of a digit run at `from`: its value and end position, or `None`
/// if there is no digit, a forbidden leading zero, or overflow past `u64`.
pub open spec fn spec_parse_u64(s: Seq<char>, from: int) -> Option<(int, int)> {
    let end = spec_digit_run_end(s, from);
    let v = spec_digits_val(s.subrange(from, end));
    if end > from && (s[from] != '0' || end == from + 1) && v <= u64::MAX {
        Some((v, end))
    } else {
        None
    }
}

/// Reads a run of digits starting at `from`, matching [`spec_parse_u64`].
pub fn parse_u64(s: &str, from: usize) -> (r: Option<(u64, usize)>)
    requires
        from <= s@.len(),
    ensures
        (match r {
            Some(p) => spec_parse_u64(s@, from as int) == Some((p.0 as int, p.1 as int)) && from
                <= p.1 <= s@.len(),
            None => spec_parse_u64(s@, from as int) is None,
        }),
{
    let len = s.unicode_len();
    let ghost end = spec_digit_run_end(s@, from as int);
    proof {
        lemma_digit_run_props(s@, from as int);
    }
    let mut i: usize = from;
    let mut val: u64 = 0;
    while i < len
        invariant
            from <= i <= end <= len,
            end == spec_digit_run_end(s@, from as int),
            len == s@.len(),
            forall|j: int| from <= j < i ==> spec_is_digit(#[trigger] s@[j]),
            val == spec_digits_val(s@.subrange(from as int, i as int)),
        ensures
            from <= i == end <= len,
            val == spec_digits_val(s@.subrange(from as int, i as int)),
        decreases len - i,
    {
        let c = s.get_char(i);
        let cu = c as u32;
        if !(48 <= cu && cu <= 57) {
            proof {
                assert(!spec_is_digit(s@[i as int]));
                assert(i == end) by {
                    lemma_digit_run_props(s@, from as int);
                    if i < end {
                        assert(spec_is_digit(s@[i as int]));
                    }
                }
            }
            break;
        }
        let d = (cu - 48) as u64;
        proof {
            assert(spec_is_digit(s@[i as int]));
            lemma_digit_run_props(s@, from as int);
            assert(i < end) by {
                if i >= end {
                    assert(!spec_is_digit(s@[end]));
                }
            }
            assert(d == spec_digit_val(s@[i as int]));
        }
        let limit = (u64::MAX - d) / 10;
        let ghost w = s@.subrange(from as int, end);
        proof {
            assert(forall|j: int| 0 <= j < w.len() ==> spec_is_digit(#[trigger] w[j]));
            assert(s@.subrange(from as int, i + 1) =~= w.take(i + 1 - from));
            assert(s@.subrange(from as int, i as int) =~= w.take(i - from));
            assert(w.take(i + 1 - from).drop_last() =~= w.take(i - from));
            assert(w.take(i + 1 - from).last() == s@[i as int]);
            assert(spec_digits_val(w.take(i + 1 - from)) == val * 10 + d);
            lemma_digits_val_bounds(w, i + 1 - from);
            let k = u64::MAX - d;
            vstd::arithmetic::div_mod::lemma_fundamental_div_mod(k as int, 10);
        }
        if val > limit {
            proof {
                assert(val * 10 + d > u64::MAX);
                assert(spec_digits_val(w) > u64::MAX);
            }
            return None;
        }
        proof {
            assert(val * 10 + d <= u64::MAX);
        }
        val = val * 10 + d;
        i += 1;
    }
    proof {
        assert(i == end) by {
            lemma_digit_run_props(s@, from as int);
            if i < end {
                assert(spec_is_digit(s@[i as int]));
                assert(i < len);
                assert(('0' <= s@[i as int] && s@[i as int] <= '9'));
            }
        }
    }
    if i == from {
        return None;
    }
    if s.get_char(from) == '0' && i > from + 1 {
        return None;
    }
    Some((val, i))
}

/// A lowercase hexadecimal digit.
pub open spec fn spec_is_hex_digit(c: char) -> bool {
    48 <= (c as u32) <= 57 || 97 <= (c as u32) <= 102
}

pub open spec fn spec_hex_val(c: char) -> int {
    if (c as u32) >= 97 {
        (c as u32) - 87
    } else {
        (c as u32) - 48
    }
}

pub open spec fn spec_hex_char(d: int) -> char {
    if d < 10 {
        spec_digit_char(d)
    } else if d == 10 {
        'a'
    } else if d == 11 {
        'b'
    } else if d == 12 {
        'c'
    } else if d == 13 {
        'd'
    } else if d == 14 {
        'e'
    } else {
        'f'
    }
}

pub proof fn lemma_hex_char_val(d: int)
    requires
        0 <= d < 16,
    ensures
        spec_is_hex_digit(spec_hex_char(d)),
        spec_hex_val(spec_hex_char(d)) == d,
{
}

/// Renders one hexadecimal digit.
pub fn hex_str(d: u32) -> (r: &'static str)
    requires
        d < 16,
    ensures
        r@ =~= seq![spec_hex_char(d as int)],
{
    proof {
        reveal_strlit("a");
        reveal_strlit("b");
        reveal_strlit("c");
        reveal_strlit("d");
        reveal_strlit("e");
        reveal_strlit("f");
    }
    if d < 10 {
        digit_str(d as u64)
    } else if d == 10 {
        "a"
    } else if d == 11 {
        "b"
    } else if d == 12 {
        "c"
    } else if d == 13 {
        "d"
    } else if d == 14 {
        "e"
    } else {
        "f"
    }
}

/// The value of one hexadecimal digit.
pub fn hex_val(c: char) -> (r: u32)
    requires
        spec_is_hex_digit(c),
    ensures
        r == spec_hex_val(c),
        r < 16,
{
    let cu = c as u32;
    if cu >= 97 {
        cu - 87
    } else {
        cu - 48
    }
}

/// Relies on std's `char::from_u32`: defined for every value below the
/// surrogate range.
#[verifier::external_body]
pub(crate) fn char_from_u32(x: u32) -> (r: char)
    requires
        x < 0xD800,
    ensures
        r == (x as char),
{
    char::from_u32(x).unwrap()
}

/// Relies on `String`'s `FromIterator<char>`: the string of exactly the
/// given characters.
#[verifier::external_body]
pub(crate) fn string_from_chars(v: &Vec<char>) -> (r: String)
    ensures
        r@ == v@,
{
    v.iter().copied().collect()
}

// ---------------------------------------------------------------------------
// Substring search
// ---------------------------------------------------------------------------

/// Index of the first occurrence of `c` in `s`, or `s.len()` if absent.
pub open spec fn spec_find(s: Seq<char>, c: char) -> int
    decreases s.len(),
{
    if s.len() == 0 {
        0
    } else if s[0] == c {
        0
    } else {
        1 + spec_find(s.drop_first(), c)
    }
}

pub proof fn lemma_find_props(s: Seq<char>, c: char)
    ensures
        0 <= spec_find(s, c) <= s.len(),
        spec_find(s, c) < s.len() ==> s[spec_find(s, c)] == c,
        forall|j: int| 0 <= j < spec_find(s, c) ==> s[j] != c,
    decreases s.len(),
{
    if s.len() != 0 && s[0] != c {
        lemma_find_props(s.drop_first(), c);
        assert forall|j: int| 0 <= j < spec_find(s, c) implies s[j] != c by {
            if j > 0 {
                assert(s.drop_first()[j - 1] != c);
            }
        }
    }
}

/// If the first `w.len()` characters avoid `c`, searching in `w + s` skips
/// over `w`.
pub proof fn lemma_find_concat(w: Seq<char>, s: Seq<char>, c: char)
    requires
        forall|i: int| 0 <= i < w.len() ==> w[i] != c,
    ensures
        spec_find(w + s, c) == w.len() + spec_find(s, c),
    decreases w.len(),
{
    if w.len() == 0 {
        assert(w + s =~= s);
    } else {
        assert((w + s).drop_first() =~= w.drop_first() + s);
        lemma_find_concat(w.drop_first(), s, c);
    }
}

/// Finds the first occurrence of `c` at or after `from`, matching
/// [`spec_find`] on the tail of `s`.
pub fn find_char(s: &str, from: usize, c: char) -> (r: usize)
    requires
        from <= s@.len(),
    ensures
        from <= r <= s@.len(),
        r - from == spec_find(s@.subrange(from as int, s@.len() as int), c),
        r < s@.len() ==> s@[r as int] == c,
        forall|j: int| from <= j < r ==> s@[j] != c,
{
    let len = s.unicode_len();
    let mut i: usize = from;
    while i < len
        invariant
            from <= i <= len,
            len == s@.len(),
            forall|j: int| from <= j < i ==> s@[j] != c,
        decreases len - i,
    {
        if s.get_char(i) == c {
            proof {
                lemma_find_unique(s@.subrange(from as int, len as int), c, i - from);
            }
            return i;
        }
        i += 1;
    }
    proof {
        lemma_find_unique(s@.subrange(from as int, len as int), c, len - from);
    }
    len
}

/// A position with the first-occurrence properties is `spec_find`.
proof fn lemma_find_unique(s: Seq<char>, c: char, k: int)
    requires
        0 <= k <= s.len(),
        k < s.len() ==> s[k] == c,
        k == s.len() ==> forall|j: int| 0 <= j < s.len() ==> s[j] != c,
        forall|j: int| 0 <= j < k ==> s[j] != c,
    ensures
        spec_find(s, c) == k,
{
    lemma_find_props(s, c);
    let f = spec_find(s, c);
    if f < k {
        assert(s[f] != c);
    } else if k < f {
        assert(s[k] != c);
    }
}

// ---------------------------------------------------------------------------
// Literal matching
// ---------------------------------------------------------------------------

/// Whether `lit` occurs in `s` starting at `from`.
pub open spec fn spec_has_at(s: Seq<char>, from: int, lit: Seq<char>) -> bool {
    0 <= from && from + lit.len() <= s.len() && s.subrange(from, from + lit.len()) == lit
}

/// Consumes `lit` at position `from`, returning the position just past it.
pub fn eat_lit(s: &str, from: usize, lit: &str) -> (r: Option<usize>)
    requires
        from <= s@.len(),
    ensures
        r is Some <==> spec_has_at(s@, from as int, lit@),
        r is Some ==> r->0 == from + lit@.len() && r->0 <= s@.len(),
{
    let slen = s.unicode_len();
    let llen = lit.unicode_len();
    if llen > slen - from {
        proof {
            assert(!spec_has_at(s@, from as int, lit@));
        }
        return None;
    }
    let mut i: usize = 0;
    while i < llen
        invariant
            0 <= i <= llen,
            llen == lit@.len(),
            slen == s@.len(),
            from + llen <= slen,
            forall|j: int| 0 <= j < i ==> s@[from + j] == lit@[j],
        decreases llen - i,
    {
        if s.get_char(from + i) != lit.get_char(i) {
            proof {
                assert(s@.subrange(from as int, from + lit@.len())[i as int] != lit@[i as int]);
            }
            return None;
        }
        i += 1;
    }
    proof {
        assert(s@.subrange(from as int, from + lit@.len()) =~= lit@);
    }
    Some(from + llen)
}

// ---------------------------------------------------------------------------
// Splitting and joining on a separator
// ---------------------------------------------------------------------------

/// Joins pieces with `sep` between them.
pub open spec fn spec_join(ss: Seq<Seq<char>>, sep: char) -> Seq<char>
    decreases ss.len(),
{
    if ss.len() == 0 {
        Seq::empty()
    } else if ss.len() == 1 {
        ss[0]
    } else {
        ss[0] + seq![sep] + spec_join(ss.drop_first(), sep)
    }
}

/// Splits on every occurrence of `sep`; always yields at least one piece, so
/// the empty string yields one empty piece.
pub open spec fn spec_split(s: Seq<char>, sep: char) -> Seq<Seq<char>>
    decreases s.len(),
{
    if s.len() == 0 {
        seq![Seq::<char>::empty()]
    } else if s[0] == sep {
        seq![Seq::<char>::empty()] + spec_split(s.drop_first(), sep)
    } else {
        let rest = spec_split(s.drop_first(), sep);
        seq![seq![s[0]] + rest[0]] + rest.drop_first()
    }
}

pub proof fn lemma_split_len(s: Seq<char>, sep: char)
    ensures
        spec_split(s, sep).len() >= 1,
    decreases s.len(),
{
    if s.len() != 0 {
        lemma_split_len(s.drop_first(), sep)
    }
}

/// Splitting `w + s` where `w` is separator-free prepends `w` onto the first
/// piece of the split of `s`.
pub proof fn lemma_split_prepend(w: Seq<char>, s: Seq<char>, sep: char)
    requires
        forall|i: int| 0 <= i < w.len() ==> w[i] != sep,
    ensures
        spec_split(w + s, sep) == seq![w + spec_split(s, sep)[0]] + spec_split(
            s,
            sep,
        ).drop_first(),
    decreases w.len(),
{
    lemma_split_len(s, sep);
    if w.len() == 0 {
        assert(w + s =~= s);
        assert(w + spec_split(s, sep)[0] =~= spec_split(s, sep)[0]);
        assert(seq![spec_split(s, sep)[0]] + spec_split(s, sep).drop_first() =~= spec_split(
            s,
            sep,
        ));
    } else {
        let t = w + s;
        assert(t[0] == w[0]);
        assert(t.drop_first() =~= w.drop_first() + s);
        lemma_split_prepend(w.drop_first(), s, sep);
        let rest = spec_split(t.drop_first(), sep);
        lemma_split_len(t.drop_first(), sep);
        assert(rest[0] == w.drop_first() + spec_split(s, sep)[0]);
        assert(seq![t[0]] + rest[0] =~= w + spec_split(s, sep)[0]);
        assert(rest.drop_first() =~= spec_split(s, sep).drop_first());
        assert(spec_split(t, sep) =~= seq![seq![t[0]] + rest[0]] + rest.drop_first());
        assert(spec_split(t, sep) =~= seq![w + spec_split(s, sep)[0]] + spec_split(
            s,
            sep,
        ).drop_first());
    }
}

/// Splitting a join recovers the pieces, provided every piece is non-empty
/// and separator-free.
pub proof fn lemma_split_join(ss: Seq<Seq<char>>, sep: char)
    requires
        ss.len() >= 1,
        forall|i: int| 0 <= i < ss.len() ==> (#[trigger] ss[i]).len() >= 1,
        forall|i: int, j: int| 0 <= i < ss.len() && 0 <= j < ss[i].len() ==> ss[i][j] != sep,
    ensures
        spec_split(spec_join(ss, sep), sep) == ss,
    decreases ss.len(),
{
    let w = ss[0];
    assert(forall|j: int| 0 <= j < w.len() ==> w[j] != sep);
    if ss.len() == 1 {
        lemma_split_prepend(w, Seq::empty(), sep);
        assert(w + Seq::<char>::empty() =~= w);
        assert(spec_split(Seq::empty(), sep) =~= seq![Seq::<char>::empty()]);
        assert(w + Seq::<char>::empty() =~= w);
        assert(spec_split(w, sep) =~= seq![w]);
        assert(spec_join(ss, sep) == w);
        assert(ss =~= seq![w]);
    } else {
        lemma_split_join(ss.drop_first(), sep);
        let tail = seq![sep] + spec_join(ss.drop_first(), sep);
        assert(spec_join(ss, sep) =~= w + tail);
        assert(tail[0] == sep);
        assert(tail.drop_first() =~= spec_join(ss.drop_first(), sep));
        assert(spec_split(tail, sep) =~= seq![Seq::<char>::empty()] + spec_split(
            spec_join(ss.drop_first(), sep),
            sep,
        ));
        assert(spec_split(tail, sep) =~= seq![Seq::<char>::empty()] + ss.drop_first());
        lemma_split_prepend(w, tail, sep);
        assert(spec_split(tail, sep)[0] =~= Seq::<char>::empty());
        assert(w + spec_split(tail, sep)[0] =~= w);
        assert(spec_split(tail, sep).drop_first() =~= ss.drop_first());
        assert(spec_split(w + tail, sep) =~= seq![w] + ss.drop_first());
        assert(seq![w] + ss.drop_first() =~= ss);
    }
}

/// Splits `s` on `sep`, matching [`spec_split`].
pub fn split_str(s: &str, sep: char) -> (r: Vec<String>)
    ensures
        r.deep_view() == spec_split(s@, sep),
{
    let len = s.unicode_len();
    let mut r: Vec<String> = Vec::new();
    let mut piece_start: usize = 0;
    let mut i: usize = 0;
    proof {
        assert(s@.subrange(0, len as int) =~= s@);
        assert(r.deep_view() + spec_split(s@, sep) =~= spec_split(s@, sep));
    }
    while i < len
        invariant
            0 <= piece_start <= i <= len,
            len == s@.len(),
            forall|j: int| piece_start <= j < i ==> s@[j] != sep,
            spec_split(s@, sep) =~= r.deep_view() + spec_split(
                s@.subrange(piece_start as int, len as int),
                sep,
            ),
        decreases len - i,
    {
        if s.get_char(i) == sep {
            let piece = s.substring_char(piece_start, i).to_owned();
            proof {
                let whole = s@.subrange(piece_start as int, len as int);
                let w = s@.subrange(piece_start as int, i as int);
                let tail = s@.subrange(i as int, len as int);
                assert(whole =~= w + tail);
                lemma_split_prepend(w, tail, sep);
                lemma_split_len(tail, sep);
                assert(tail[0] == sep);
                assert(tail.drop_first() =~= s@.subrange(i + 1, len as int));
                assert(spec_split(tail, sep) =~= seq![Seq::<char>::empty()] + spec_split(
                    s@.subrange(i + 1, len as int),
                    sep,
                ));
                assert(spec_split(tail, sep)[0] =~= Seq::<char>::empty());
                assert(w + spec_split(tail, sep)[0] =~= w);
                assert(spec_split(whole, sep) =~= seq![w] + spec_split(
                    s@.subrange(i + 1, len as int),
                    sep,
                ));
                assert((r.deep_view() + seq![piece@]).drop_last() =~= r.deep_view());
            }
            r.push(piece);
            proof {
                assert(r.deep_view() =~= r.deep_view().drop_last() + seq![
                    s@.subrange(piece_start as int, i as int),
                ]);
            }
            piece_start = i + 1;
        }
        i += 1;
    }
    let piece = s.substring_char(piece_start, len).to_owned();
    proof {
        let w = s@.subrange(piece_start as int, len as int);
        assert(w + Seq::<char>::empty() =~= w);
        lemma_split_prepend(w, Seq::empty(), sep);
        assert(spec_split(Seq::empty(), sep) =~= seq![Seq::<char>::empty()]);
        assert(spec_split(w, sep) =~= seq![w]);
        assert((r.deep_view() + seq![piece@]).drop_last() =~= r.deep_view());
    }
    r.push(piece);
    proof {
        assert(r.deep_view() =~= r.deep_view().drop_last() + seq![
            s@.subrange(piece_start as int, len as int),
        ]);
    }
    r
}

/// Joins the pieces of `v`, starting at index `i`, with single spaces.
fn join_space_from(v: &Vec<String>, i: usize) -> (r: String)
    requires
        i <= v.len(),
    ensures
        r@ == spec_join(v.deep_view().subrange(i as int, v.len() as int), ' '),
    decreases v.len() - i,
{
    proof {
        reveal_strlit(" ");
    }
    if i >= v.len() {
        String::new()
    } else if i + 1 == v.len() {
        let r = v[i].clone();
        proof {
            assert(v.deep_view().subrange(i as int, v.len() as int) =~= seq![v[i as int]@]);
        }
        r
    } else {
        let mut r = v[i].clone();
        r.append(" ");
        let tail = join_space_from(v, i + 1);
        r.append(tail.as_str());
        proof {
            let sub = v.deep_view().subrange(i as int, v.len() as int);
            assert(sub[0] == v[i as int]@);
            assert(sub.drop_first() =~= v.deep_view().subrange(i + 1, v.len() as int));
            assert(" "@ =~= seq![' ']);
            assert(r@ =~= sub[0] + seq![' '] + spec_join(sub.drop_first(), ' '));
        }
        r
    }
}

/// Joins scope entries with single spaces, the wire and cache rendering of a
/// scope set.
pub fn join_space(v: &Vec<String>) -> (r: String)
    ensures
        r@ == spec_join(v.deep_view(), ' '),
{
    let r = join_space_from(v, 0);
    proof {
        assert(v.deep_view().subrange(0, v.len() as int) =~= v.deep_view());
    }
    r
}

} // verus!
