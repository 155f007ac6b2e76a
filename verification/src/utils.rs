//! String and size utilities: verified equality and suffix tests on
//! strings, decimal formatting, size-string parsing, and path-label helpers.

use vstd::prelude::*;
use vstd::string::*;

verus! {

/// Whether `s` ends with the suffix `suf`.
pub open spec fn spec_ends_with(s: Seq<char>, suf: Seq<char>) -> bool {
    s.len() >= suf.len() && s.subrange(s.len() - suf.len(), s.len() as int) == suf
}

/// String equality on the underlying character sequences.
pub fn str_eq(a: &str, b: &str) -> (r: bool)
    ensures
        r == (a@ == b@),
{
    let na: usize = a.unicode_len();
    let nb: usize = b.unicode_len();
    if na != nb {
        proof {
            assert(a@ != b@);
        }
        return false;
    }
    let mut i: usize = 0;
    while i < na
        invariant
            na == a@.len(),
            nb == b@.len(),
            na == nb,
            i <= na,
            forall|j: int| 0 <= j < i ==> a@[j] == b@[j],
        decreases na - i,
    {
        if a.get_char(i) != b.get_char(i) {
            proof {
                assert(a@[i as int] != b@[i as int]);
            }
            return false;
        }
        i += 1;
    }
    proof {
        assert(a@ =~= b@);
    }
    true
}

/// Whether `s` ends with `suf`, by characters.
pub fn str_ends_with(s: &str, suf: &str) -> (r: bool)
    ensures
        r == spec_ends_with(s@, suf@),
{
    let n: usize = s.unicode_len();
    let m: usize = suf.unicode_len();
    if m > n {
        return false;
    }
    let off: usize = n - m;
    let mut i: usize = 0;
    while i < m
        invariant
            n == s@.len(),
            m == suf@.len(),
            m <= n,
            off == n - m,
            i <= m,
            forall|j: int| 0 <= j < i ==> s@[off + j] == suf@[j],
        decreases m - i,
    {
        if s.get_char(off + i) != suf.get_char(i) {
            proof {
                assert(s@[off + i] != suf@[i as int]);
                assert(s@.subrange(s@.len() - suf@.len(), s@.len() as int)[i as int]
                    == s@[off + i]);
            }
            return false;
        }
        i += 1;
    }
    proof {
        assert(s@.subrange(s@.len() - suf@.len(), s@.len() as int) =~= suf@);
    }
    true
}

/// Whether `pat` occurs in `s` as a contiguous substring.
pub open spec fn spec_contains(s: Seq<char>, pat: Seq<char>) -> bool {
    exists|i: int|
        0 <= i <= s.len() - pat.len() && #[trigger] s.subrange(i, i + pat.len()) == pat
}

/// Substring search, by characters.
pub fn str_contains(s: &str, pat: &str) -> (r: bool)
    ensures
        r == spec_contains(s@, pat@),
{
    let n: usize = s.unicode_len();
    let m: usize = pat.unicode_len();
    if m > n {
        return false;
    }
    if m == 0 {
        proof {
            assert(s@.subrange(0, 0 + pat@.len() as int) =~= pat@);
        }
        return true;
    }
    let mut i: usize = 0;
    while i <= n - m
        invariant
            n == s@.len(),
            m == pat@.len(),
            0 < m <= n,
            i <= n - m + 1,
            forall|k: int| 0 <= k < i ==> #[trigger] s@.subrange(k, k + pat@.len()) != pat@,
        decreases n - i,
    {
        let mut j: usize = 0;
        let mut hit: bool = true;
        while j < m
            invariant
                n == s@.len(),
                m == pat@.len(),
                m <= n,
                i <= n - m,
                j <= m,
                hit ==> forall|k: int| 0 <= k < j ==> s@[i + k] == pat@[k],
                !hit ==> s@.subrange(i as int, i + pat@.len()) != pat@,
            decreases m - j,
        {
            if s.get_char(i + j) != pat.get_char(j) {
                proof {
                    assert(s@.subrange(i as int, i + pat@.len())[j as int] == s@[i + j]);
                }
                hit = false;
                j = m;
            } else {
                j += 1;
            }
        }
        if hit {
            proof {
                assert(s@.subrange(i as int, i + pat@.len()) =~= pat@);
            }
            return true;
        }
        i += 1;
    }
    false
}

/// Index of the last `'/'` strictly before `end` in `s`, or `-1` if there
/// is none.
pub open spec fn spec_last_slash(s: Seq<char>, end: int) -> int
    decreases end,
{
    if end <= 0 {
        -1
    } else if s[end - 1] == '/' {
        end - 1
    } else {
        spec_last_slash(s, end - 1)
    }
}

/// The label `get_project_name` derives from a path: the name of the
/// path's parent directory, or `"Unknown"` when the path has no named
/// parent.  Paths are `'/'`-separated without trailing separators.
pub open spec fn spec_project_name(s: Seq<char>) -> Seq<char> {
    let j = spec_last_slash(s, s.len() as int);
    if j < 0 {
        "Unknown"@
    } else {
        let i = spec_last_slash(s, j);
        if i + 1 == j {
            "Unknown"@
        } else {
            s.subrange(i + 1, j)
        }
    }
}

/// Index of the last `'/'` before `end`, if any.
fn rfind_slash(s: &str, end: usize) -> (r: Option<usize>)
    requires
        end <= s@.len(),
    ensures
        match r {
            Some(k) => k < end && spec_last_slash(s@, end as int) == k,
            None => spec_last_slash(s@, end as int) == -1,
        },
{
    let mut e: usize = end;
    while e > 0
        invariant
            end <= s@.len(),
            e <= end,
            spec_last_slash(s@, end as int) == spec_last_slash(s@, e as int),
        decreases e,
    {
        if s.get_char(e - 1) == '/' {
            return Some(e - 1);
        }
        e -= 1;
    }
    None
}

/// Label for an item taken from its parent directory's name.
///
/// For a path like `"/work/proj/target"` this is `"proj"`; a path without
/// a named parent yields `"Unknown"`.
pub fn get_project_name(path: &str) -> (r: String)
    ensures
        r@ == spec_project_name(path@),
{
    let n: usize = path.unicode_len();
    match rfind_slash(path, n) {
        None => "Unknown".to_owned(),
        Some(j) => {
            let start: usize = match rfind_slash(path, j) {
                None => 0,
                Some(i) => i + 1,
            };
            if start == j {
                "Unknown".to_owned()
            } else {
                path.substring_char(start, j).to_owned()
            }
        },
    }
}

/// The character for one decimal digit.
pub open spec fn spec_digit(d: int) -> char {
    if d == 0 {
        '0'
    } else if d == 1 {
        '1'
    } else if d == 2 {
        '2'
    } else if d == 3 {
        '3'
    } else if d == 4 {
        '4'
    } else if d == 5 {
        '5'
    } else if d == 6 {
        '6'
    } else if d == 7 {
        '7'
    } else if d == 8 {
        '8'
    } else {
        '9'
    }
}

/// Decimal representation of a number, most significant digit first.
pub open spec fn spec_dec(n: nat) -> Seq<char>
    decreases n,
{
    if n < 10 {
        seq![spec_digit(n as int)]
    } else {
        spec_dec(n / 10) + seq![spec_digit((n % 10) as int)]
    }
}

/// One decimal digit as a string slice.
fn digit_str(d: u64) -> (r: &'static str)
    requires
        d < 10,
    ensures
        r@ == seq![spec_digit(d as int)],
{
    if d == 0 {
        proof {
            reveal_strlit("0");
            assert("0"@ =~= seq![spec_digit(0)]);
        }
        "0"
    } else if d == 1 {
        proof {
            reveal_strlit("1");
            assert("1"@ =~= seq![spec_digit(1)]);
        }
        "1"
    } else if d == 2 {
        proof {
            reveal_strlit("2");
            assert("2"@ =~= seq![spec_digit(2)]);
        }
        "2"
    } else if d == 3 {
        proof {
            reveal_strlit("3");
            assert("3"@ =~= seq![spec_digit(3)]);
        }
        "3"
    } else if d == 4 {
        proof {
            reveal_strlit("4");
            assert("4"@ =~= seq![spec_digit(4)]);
        }
        "4"
    } else if d == 5 {
        proof {
            reveal_strlit("5");
            assert("5"@ =~= seq![spec_digit(5)]);
        }
        "5"
    } else if d == 6 {
        proof {
            reveal_strlit("6");
            assert("6"@ =~= seq![spec_digit(6)]);
        }
        "6"
    } else if d == 7 {
        proof {
            reveal_strlit("7");
            assert("7"@ =~= seq![spec_digit(7)]);
        }
        "7"
    } else if d == 8 {
        proof {
            reveal_strlit("8");
            assert("8"@ =~= seq![spec_digit(8)]);
        }
        "8"
    } else {
        proof {
            reveal_strlit("9");
            assert("9"@ =~= seq![spec_digit(9)]);
        }
        "9"
    }
}

/// A number in decimal notation.
pub fn u64_to_string(n: u64) -> (r: String)
    ensures
        r@ == spec_dec(n as nat),
    decreases n,
{
    if n < 10 {
        digit_str(n).to_owned()
    } else {
        let mut s = u64_to_string(n / 10);
        s.append(digit_str(n % 10));
        s
    }
}

pub const KB: u64 = 1024;

pub const MB: u64 = 1048576;

pub const GB: u64 = 1073741824;

pub const TB: u64 = 1099511627776;

/// `size` scaled down by `div` with two decimal places, rounding half up:
/// the digits of the whole part, a point, and two fraction digits.
pub open spec fn spec_scaled(size: u64, div: u64) -> Seq<char> {
    let h = (size * 100 + div / 2) / (div as int);
    spec_dec((h / 100) as nat) + "."@ + seq![
        spec_digit(h % 100 / 10),
        spec_digit(h % 100 % 10),
    ]
}

/// What `format_size` produces: the size scaled to the largest binary unit
/// it reaches, with two decimal places, or a plain byte count below 1 KB.
pub open spec fn spec_format_size(size: u64) -> Seq<char> {
    if size >= TB {
        spec_scaled(size, TB) + " TB"@
    } else if size >= GB {
        spec_scaled(size, GB) + " GB"@
    } else if size >= MB {
        spec_scaled(size, MB) + " MB"@
    } else if size >= KB {
        spec_scaled(size, KB) + " KB"@
    } else {
        spec_dec(size as nat) + " B"@
    }
}

/// The scaled two-decimal string for one binary unit.
fn scaled_string(size: u64, div: u64) -> (r: String)
    requires
        div == KB || div == MB || div == GB || div == TB,
    ensures
        r@ == spec_scaled(size, div),
{
    let h128: u128 = ((size as u128) * 100 + (div as u128) / 2) / (div as u128);
    proof {
        assert(h128 <= u64::MAX) by {
            assert((size as int) * 100 + (div as int) / 2 <= (div as int) * (u64::MAX as int));
            assert(((size as int) * 100 + (div as int) / 2) / (div as int) <= u64::MAX as int)
                by (nonlinear_arith)
                requires
                    (size as int) * 100 + (div as int) / 2 <= (div as int) * (u64::MAX as int),
                    div >= 1024,
            ;
        }
    }
    let h: u64 = h128 as u64;
    let mut s = u64_to_string(h / 100);
    s.append(".");
    let t: u64 = h % 100;
    s.append(digit_str(t / 10));
    s.append(digit_str(t % 10));
    proof {
        assert(s@ =~= spec_scaled(size, div));
    }
    s
}

/// Format a byte count for display: two decimal places in the largest
/// binary unit reached (`KB`, `MB`, `GB`, `TB`), or whole bytes below 1 KB.
pub fn format_size(size: u64) -> (r: String)
    ensures
        r@ == spec_format_size(size),
{
    if size >= TB {
        let mut s = scaled_string(size, TB);
        s.append(" TB");
        s
    } else if size >= GB {
        let mut s = scaled_string(size, GB);
        s.append(" GB");
        s
    } else if size >= MB {
        let mut s = scaled_string(size, MB);
        s.append(" MB");
        s
    } else if size >= KB {
        let mut s = scaled_string(size, KB);
        s.append(" KB");
        s
    } else {
        let mut s = u64_to_string(size);
        s.append(" B");
        s
    }
}

/// Whitespace as the trimming and parsing here understand it.
pub open spec fn spec_is_ws(c: char) -> bool {
    c == ' ' || c == '\t' || c == '\n' || c == '\r' || c == '\u{b}' || c == '\u{c}'
}

/// First index at or after `i` (bounded by `end`) holding a
/// non-whitespace character.
pub open spec fn skip_ws_fwd(s: Seq<char>, i: int, end: int) -> int
    decreases end - i,
{
    if i < 0 || i >= end || !spec_is_ws(s[i]) {
        i
    } else {
        skip_ws_fwd(s, i + 1, end)
    }
}

/// Last bound at or before `end` (not below `start`) such that the
/// character just before it is not whitespace.
pub open spec fn skip_ws_back(s: Seq<char>, start: int, end: int) -> int
    decreases end - start,
{
    if end <= start || !spec_is_ws(s[end - 1]) {
        end
    } else {
        skip_ws_back(s, start, end - 1)
    }
}

/// `s` with leading and trailing whitespace removed.
pub open spec fn spec_trim(s: Seq<char>) -> Seq<char> {
    let a = skip_ws_fwd(s, 0, s.len() as int);
    let b = skip_ws_back(s, a, s.len() as int);
    s.subrange(a, b)
}

proof fn lemma_skip_fwd_bounds(s: Seq<char>, i: int, end: int)
    requires
        0 <= i <= end,
    ensures
        i <= skip_ws_fwd(s, i, end) <= end,
    decreases end - i,
{
    if !(i >= end || !spec_is_ws(s[i])) {
        lemma_skip_fwd_bounds(s, i + 1, end);
    }
}

proof fn lemma_skip_back_bounds(s: Seq<char>, start: int, end: int)
    requires
        start <= end,
    ensures
        start <= skip_ws_back(s, start, end) <= end,
    decreases end - start,
{
    if !(end <= start || !spec_is_ws(s[end - 1])) {
        lemma_skip_back_bounds(s, start, end - 1);
    }
}

proof fn lemma_skip_fwd_take(s: Seq<char>, end: int, i: int)
    requires
        0 <= i,
        0 <= end <= s.len(),
    ensures
        skip_ws_fwd(s.take(end), i, end) == skip_ws_fwd(s, i, end),
    decreases end - i,
{
    if !(i >= end || !spec_is_ws(s[i])) {
        lemma_skip_fwd_take(s, end, i + 1);
    }
}

proof fn lemma_skip_back_take(s: Seq<char>, end: int, start: int, e: int)
    requires
        0 <= start,
        e <= end <= s.len(),
    ensures
        skip_ws_back(s.take(end), start, e) == skip_ws_back(s, start, e),
    decreases e - start,
{
    if !(e <= start || !spec_is_ws(s[e - 1])) {
        lemma_skip_back_take(s, end, start, e - 1);
    }
}

/// First non-whitespace position in `s` within `[from, end)`, or `end`.
fn skip_ws_forward(s: &str, from: usize, end: usize) -> (r: usize)
    requires
        from <= end <= s@.len(),
    ensures
        r == skip_ws_fwd(s@, from as int, end as int),
        from <= r <= end,
{
    proof {
        lemma_skip_fwd_bounds(s@, from as int, end as int);
    }
    let mut i: usize = from;
    while i < end
        invariant
            from <= i <= end <= s@.len(),
            skip_ws_fwd(s@, from as int, end as int) == skip_ws_fwd(s@, i as int, end as int),
        decreases end - i,
    {
        let c = s.get_char(i);
        if !(c == ' ' || c == '\t' || c == '\n' || c == '\r' || c == '\u{b}' || c == '\u{c}') {
            return i;
        }
        i += 1;
    }
    i
}

/// Bound of the trailing-whitespace run of `s` within `[start, end)`.
fn skip_ws_backward(s: &str, start: usize, end: usize) -> (r: usize)
    requires
        start <= end <= s@.len(),
    ensures
        r == skip_ws_back(s@, start as int, end as int),
        start <= r <= end,
{
    proof {
        lemma_skip_back_bounds(s@, start as int, end as int);
    }
    let mut e: usize = end;
    while e > start
        invariant
            start <= e <= end <= s@.len(),
            skip_ws_back(s@, start as int, end as int) == skip_ws_back(s@, start as int, e as int),
        decreases e,
    {
        let c = s.get_char(e - 1);
        if !(c == ' ' || c == '\t' || c == '\n' || c == '\r' || c == '\u{b}' || c == '\u{c}') {
            return e;
        }
        e -= 1;
    }
    e
}

/// ASCII uppercase of one character; everything else is unchanged.
pub open spec fn spec_upper_char(c: char) -> char {
    if 97 <= c as u32 && c as u32 <= 122 {
        ((c as u32) - 32) as char
    } else {
        c
    }
}

/// ASCII uppercase of a character sequence.
pub open spec fn spec_upper(s: Seq<char>) -> Seq<char> {
    s.map(|_i: int, c: char| spec_upper_char(c))
}

/// The character of `s` at `i`, ASCII-uppercased, as a one-character slice.
fn upper_piece<'a>(s: &'a str, i: usize) -> (r: &'a str)
    requires
        i < s@.len(),
        i < usize::MAX,
    ensures
        r@ == seq![spec_upper_char(s@[i as int])],
{
    let c = s.get_char(i);
    if c == 'a' {
        proof { reveal_strlit("A"); assert("A"@ =~= seq![spec_upper_char('a')]); }
        "A"
    } else if c == 'b' {
        proof { reveal_strlit("B"); assert("B"@ =~= seq![spec_upper_char('b')]); }
        "B"
    } else if c == 'c' {
        proof { reveal_strlit("C"); assert("C"@ =~= seq![spec_upper_char('c')]); }
        "C"
    } else if c == 'd' {
        proof { reveal_strlit("D"); assert("D"@ =~= seq![spec_upper_char('d')]); }
        "D"
    } else if c == 'e' {
        proof { reveal_strlit("E"); assert("E"@ =~= seq![spec_upper_char('e')]); }
        "E"
    } else if c == 'f' {
        proof { reveal_strlit("F"); assert("F"@ =~= seq![spec_upper_char('f')]); }
        "F"
    } else if c == 'g' {
        proof { reveal_strlit("G"); assert("G"@ =~= seq![spec_upper_char('g')]); }
        "G"
    } else if c == 'h' {
        proof { reveal_strlit("H"); assert("H"@ =~= seq![spec_upper_char('h')]); }
        "H"
    } else if c == 'i' {
        proof { reveal_strlit("I"); assert("I"@ =~= seq![spec_upper_char('i')]); }
        "I"
    } else if c == 'j' {
        proof { reveal_strlit("J"); assert("J"@ =~= seq![spec_upper_char('j')]); }
        "J"
    } else if c == 'k' {
        proof { reveal_strlit("K"); assert("K"@ =~= seq![spec_upper_char('k')]); }
        "K"
    } else if c == 'l' {
        proof { reveal_strlit("L"); assert("L"@ =~= seq![spec_upper_char('l')]); }
        "L"
    } else if c == 'm' {
        proof { reveal_strlit("M"); assert("M"@ =~= seq![spec_upper_char('m')]); }
        "M"
    } else if c == 'n' {
        proof { reveal_strlit("N"); assert("N"@ =~= seq![spec_upper_char('n')]); }
        "N"
    } else if c == 'o' {
        proof { reveal_strlit("O"); assert("O"@ =~= seq![spec_upper_char('o')]); }
        "O"
    } else if c == 'p' {
        proof { reveal_strlit("P"); assert("P"@ =~= seq![spec_upper_char('p')]); }
        "P"
    } else if c == 'q' {
        proof { reveal_strlit("Q"); assert("Q"@ =~= seq![spec_upper_char('q')]); }
        "Q"
    } else if c == 'r' {
        proof { reveal_strlit("R"); assert("R"@ =~= seq![spec_upper_char('r')]); }
        "R"
    } else if c == 's' {
        proof { reveal_strlit("S"); assert("S"@ =~= seq![spec_upper_char('s')]); }
        "S"
    } else if c == 't' {
        proof { reveal_strlit("T"); assert("T"@ =~= seq![spec_upper_char('t')]); }
        "T"
    } else if c == 'u' {
        proof { reveal_strlit("U"); assert("U"@ =~= seq![spec_upper_char('u')]); }
        "U"
    } else if c == 'v' {
        proof { reveal_strlit("V"); assert("V"@ =~= seq![spec_upper_char('v')]); }
        "V"
    } else if c == 'w' {
        proof { reveal_strlit("W"); assert("W"@ =~= seq![spec_upper_char('w')]); }
        "W"
    } else if c == 'x' {
        proof { reveal_strlit("X"); assert("X"@ =~= seq![spec_upper_char('x')]); }
        "X"
    } else if c == 'y' {
        proof { reveal_strlit("Y"); assert("Y"@ =~= seq![spec_upper_char('y')]); }
        "Y"
    } else if c == 'z' {
        proof { reveal_strlit("Z"); assert("Z"@ =~= seq![spec_upper_char('z')]); }
        "Z"
    } else {
        s.substring_char(i, i + 1)
    }
}

/// `s` trimmed of surrounding whitespace and ASCII-uppercased.
pub fn to_upper_trimmed(s: &str) -> (r: String)
    ensures
        r@ == spec_upper(spec_trim(s@)),
{
    let n: usize = s.unicode_len();
    let a = skip_ws_forward(s, 0, n);
    let b = skip_ws_backward(s, a, n);
    let mut out = String::new();
    let mut i: usize = a;
    proof {
        assert(out@ =~= spec_upper(s@.subrange(a as int, a as int)));
    }
    while i < b
        invariant
            a <= i <= b <= s@.len(),
            out@ == spec_upper(s@.subrange(a as int, i as int)),
        decreases b - i,
    {
        out.append(upper_piece(s, i));
        proof {
            assert(spec_upper(s@.subrange(a as int, i + 1)) =~= spec_upper(
                s@.subrange(a as int, i as int),
            ) + seq![spec_upper_char(s@[i as int])]);
        }
        i += 1;
    }
    proof {
        assert(spec_trim(s@) == s@.subrange(a as int, b as int));
    }
    out
}

/// The numeric value of a digit character.
pub open spec fn spec_digit_val(c: char) -> int {
    c as u32 - 48
}

/// Whether every character of `s` is a decimal digit.
pub open spec fn spec_all_digits(s: Seq<char>) -> bool {
    forall|i: int| 0 <= i < s.len() ==> 48 <= #[trigger] (s[i] as u32) <= 57
}

/// The value of a digit string read in base ten.
pub open spec fn spec_digits_val(s: Seq<char>) -> int
    decreases s.len(),
{
    if s.len() == 0 {
        0
    } else {
        spec_digits_val(s.drop_last()) * 10 + spec_digit_val(s.last())
    }
}

proof fn lemma_digits_val_nonneg(s: Seq<char>)
    requires
        spec_all_digits(s),
    ensures
        spec_digits_val(s) >= 0,
    decreases s.len(),
{
    if s.len() > 0 {
        assert(spec_all_digits(s.drop_last()));
        lemma_digits_val_nonneg(s.drop_last());
    }
}

proof fn lemma_digits_prefix(s: Seq<char>, n: int)
    requires
        spec_all_digits(s),
        0 <= n <= s.len(),
    ensures
        spec_digits_val(s.take(n)) <= spec_digits_val(s),
    decreases s.len(),
{
    if n == s.len() {
        assert(s.take(n) =~= s);
    } else {
        assert(spec_all_digits(s.drop_last()));
        assert(s.take(n) =~= s.drop_last().take(n));
        lemma_digits_prefix(s.drop_last(), n);
        lemma_digits_val_nonneg(s.drop_last());
    }
}

/// The suffix rule of `parse_size`: which unit the (already uppercased)
/// string carries, how many characters it occupies, and its multiplier.
pub open spec fn spec_split_suffix(u: Seq<char>) -> (Seq<char>, int) {
    if spec_ends_with(u, "TB"@) {
        (u.take(u.len() - 2), TB as int)
    } else if spec_ends_with(u, "GB"@) {
        (u.take(u.len() - 2), GB as int)
    } else if spec_ends_with(u, "MB"@) {
        (u.take(u.len() - 2), MB as int)
    } else if spec_ends_with(u, "KB"@) {
        (u.take(u.len() - 2), KB as int)
    } else if spec_ends_with(u, "B"@) {
        (u.take(u.len() - 1), 1)
    } else {
        (u, 1)
    }
}

/// Clamp a non-negative value into `u64`.
pub open spec fn spec_saturate(v: int) -> u64 {
    if v > u64::MAX {
        u64::MAX
    } else {
        v as u64
    }
}

/// What `parse_size` accepts: trim and uppercase the input, strip one
/// binary-unit suffix (`TB`, `GB`, `MB`, `KB`, or a bare `B`), trim again,
/// and read the rest as a decimal `u64`; the value times the unit's
/// multiplier, saturating at `u64::MAX`.  `None` is a parse error.
pub open spec fn spec_parse_size(s: Seq<char>) -> Option<u64> {
    let u = spec_upper(spec_trim(s));
    let body = spec_split_suffix(u).0;
    let mult = spec_split_suffix(u).1;
    let d = spec_trim(body);
    if d.len() > 0 && spec_all_digits(d) && spec_digits_val(d) <= u64::MAX {
        Some(spec_saturate(spec_digits_val(d) * mult))
    } else {
        None
    }
}

/// Parse a human-readable size such as `"100MB"` or `"1GB"` into bytes.
///
/// A bare number counts as bytes; the unit suffixes are case-insensitive
/// powers of 1024; anything else is an error carrying the offending
/// (normalised) input.
pub fn parse_size(size_str: &str) -> (r: Result<u64, String>)
    ensures
        match r {
            Ok(v) => spec_parse_size(size_str@) == Some(v),
            Err(e) => spec_parse_size(size_str@) is None && e@ == "Invalid size format: "@
                + spec_upper(spec_trim(size_str@)),
        },
{
    let u: String = to_upper_trimmed(size_str);
    let n: usize = u.as_str().unicode_len();
    proof {
        reveal_strlit("TB");
        reveal_strlit("GB");
        reveal_strlit("MB");
        reveal_strlit("KB");
        reveal_strlit("B");
    }
    let (cut, mult): (usize, u64) = if str_ends_with(u.as_str(), "TB") {
        (2, TB)
    } else if str_ends_with(u.as_str(), "GB") {
        (2, GB)
    } else if str_ends_with(u.as_str(), "MB") {
        (2, MB)
    } else if str_ends_with(u.as_str(), "KB") {
        (2, KB)
    } else if str_ends_with(u.as_str(), "B") {
        (1, 1)
    } else {
        (0, 1)
    };
    let end: usize = n - cut;
    proof {
        assert(u@.take(end as int) == spec_split_suffix(u@).0);
        assert(mult == spec_split_suffix(u@).1);
        lemma_skip_fwd_bounds(u@, 0, end as int);
        lemma_skip_fwd_take(u@, end as int, 0);
    }
    let a = skip_ws_forward(u.as_str(), 0, end);
    proof {
        lemma_skip_back_take(u@, end as int, a as int, end as int);
    }
    let b = skip_ws_backward(u.as_str(), a, end);
    proof {
        assert(spec_trim(u@.take(end as int)) == u@.subrange(a as int, b as int));
    }
    if a == b {
        proof {
            assert(spec_trim(u@.take(end as int)).len() == 0);
        }
        return Err("Invalid size format: ".to_owned().concat(u.as_str()));
    }
    let ghost d: Seq<char> = u@.subrange(a as int, b as int);
    let mut acc: u64 = 0;
    let mut i: usize = a;
    proof {
        assert(d.take(0) =~= Seq::<char>::empty());
    }
    while i < b
        invariant
            a <= i <= b <= u@.len(),
            d == u@.subrange(a as int, b as int),
            spec_all_digits(d.take(i - a)),
            acc == spec_digits_val(d.take(i - a)),
            spec_parse_size(size_str@) == {
                if d.len() > 0 && spec_all_digits(d) && spec_digits_val(d) <= u64::MAX {
                    Some(spec_saturate(spec_digits_val(d) * (mult as int)))
                } else {
                    None::<u64>
                }
            },
            u@ == spec_upper(spec_trim(size_str@)),
        decreases b - i,
    {
        let c = u.as_str().get_char(i);
        let cv: u32 = c as u32;
        if cv < 48 || cv > 57 {
            proof {
                assert(d[i - a] == u@[i as int]);
                assert(!spec_all_digits(d));
            }
            return Err("Invalid size format: ".to_owned().concat(u.as_str()));
        }
        let dv: u64 = (cv - 48) as u64;
        proof {
            assert(d.take(i - a + 1).drop_last() =~= d.take(i - a));
            assert(d.take(i - a + 1).last() == u@[i as int]);
            assert(spec_all_digits(d.take(i - a + 1)));
        }
        let step = acc.checked_mul(10);
        let next = match step {
            Some(m) => m.checked_add(dv),
            None => None,
        };
        match next {
            Some(v) => {
                acc = v;
            },
            None => {
                proof {
                    assert(spec_digits_val(d.take(i - a + 1)) > u64::MAX);
                    if spec_all_digits(d) {
                        lemma_digits_prefix(d, i - a + 1);
                        assert(spec_digits_val(d) > u64::MAX);
                    }
                }
                return Err("Invalid size format: ".to_owned().concat(u.as_str()));
            },
        }
        i += 1;
    }
    proof {
        assert(d.take(b - a) =~= d);
    }
    let p: u128 = (acc as u128) * (mult as u128);
    if p > u64::MAX as u128 {
        Ok(u64::MAX)
    } else {
        Ok(p as u64)
    }
}

/// `s` with every escaped space `"\ "` replaced by a plain space.
pub open spec fn spec_unescape(s: Seq<char>) -> Seq<char>
    decreases s.len(),
{
    if s.len() == 0 {
        s
    } else if s.len() >= 2 && s[0] == '\\' && s[1] == ' ' {
        " "@ + spec_unescape(s.skip(2))
    } else {
        s.take(1) + spec_unescape(s.skip(1))
    }
}

fn unescape(s: &str) -> (r: String)
    ensures
        r@ == spec_unescape(s@),
{
    let n: usize = s.unicode_len();
    let mut out = String::new();
    let mut i: usize = 0;
    proof {
        assert(s@.skip(0) =~= s@);
        assert(out@ + spec_unescape(s@) =~= spec_unescape(s@));
    }
    while i < n
        invariant
            i <= n == s@.len(),
            out@ + spec_unescape(s@.skip(i as int)) == spec_unescape(s@),
        decreases n - i,
    {
        if s.get_char(i) == '\\' && i + 1 < n && s.get_char(i + 1) == ' ' {
            out.append(" ");
            proof {
                assert(s@.skip(i as int).skip(2) =~= s@.skip(i + 2));
                assert(out@ + spec_unescape(s@.skip(i + 2)) =~= spec_unescape(s@));
            }
            i += 2;
        } else {
            out.append(s.substring_char(i, i + 1));
            proof {
                assert(s@.skip(i as int).take(1) =~= s@.subrange(i as int, i + 1));
                assert(s@.skip(i as int).skip(1) =~= s@.skip(i + 1));
                assert(out@ + spec_unescape(s@.skip(i + 1)) =~= spec_unescape(s@));
            }
            i += 1;
        }
    }
    proof {
        assert(s@.skip(n as int) =~= Seq::<char>::empty());
        assert(out@ =~= spec_unescape(s@));
    }
    out
}

/// Joining a relative remainder onto a home directory, the way a path
/// join behaves: an absolute remainder wins outright, and a separator is
/// added only where one is missing.
pub open spec fn spec_join_home(h: Seq<char>, rest: Seq<char>) -> Seq<char> {
    if rest.len() > 0 && rest[0] == '/' {
        rest
    } else if h.len() > 0 && h[h.len() - 1] == '/' {
        h + rest
    } else {
        h + "/"@ + rest
    }
}

/// The view of an optional string slice.
pub open spec fn spec_opt_str(o: Option<&str>) -> Option<Seq<char>> {
    match o {
        Some(h) => Some(h@),
        None => None,
    }
}

/// What `expand_tilde` produces: escaped spaces unescaped, and a leading
/// `~` or `~/` replaced by the home directory when one is known.
pub open spec fn spec_expand_tilde(s: Seq<char>, home: Option<Seq<char>>) -> Seq<char> {
    let c = spec_unescape(s);
    match home {
        Some(h) => {
            if c.len() >= 2 && c[0] == '~' && c[1] == '/' {
                spec_join_home(h, c.skip(2))
            } else if c.len() == 1 && c[0] == '~' {
                h
            } else {
                c
            }
        },
        None => c,
    }
}

/// Expand a leading tilde to the given home directory and drop escape
/// characters before spaces.
pub fn expand_tilde(path: &str, home: Option<&str>) -> (r: String)
    ensures
        r@ == spec_expand_tilde(path@, spec_opt_str(home)),
{
    let c: String = unescape(path);
    match home {
        None => c,
        Some(h) => {
            let cn: usize = c.as_str().unicode_len();
            if cn >= 2 && c.as_str().get_char(0) == '~' && c.as_str().get_char(1) == '/' {
                let rest_abs = cn > 2 && c.as_str().get_char(2) == '/';
                if rest_abs {
                    proof {
                        assert(c@.skip(2)[0] == c@[2]);
                    }
                    c.as_str().substring_char(2, cn).to_owned()
                } else {
                    proof {
                        assert(c@.skip(2).len() > 0 ==> c@.skip(2)[0] == c@[2]);
                    }
                    let hn: usize = h.unicode_len();
                    let mut out = h.to_owned();
                    if hn == 0 || h.get_char(hn - 1) != '/' {
                        out.append("/");
                    }
                    out.append(c.as_str().substring_char(2, cn));
                    proof {
                        assert(c@.subrange(2, cn as int) =~= c@.skip(2));
                        assert(out@ =~= spec_expand_tilde(path@, spec_opt_str(home)));
                    }
                    out
                }
            } else if cn == 1 && c.as_str().get_char(0) == '~' {
                h.to_owned()
            } else {
                c
            }
        },
    }
}

} // verus!
