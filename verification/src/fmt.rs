//! Decimal text handling for the numbers the launcher shows: rendering of
//! plain counters, `H:MM:SS` / `M:SS` running times and binary-prefixed
//! file sizes, and the parsing of the digit strings the probe tool
//! reports.

use vstd::prelude::*;
use vstd::string::StringExecFns;

verus! {

/// The decimal digit character for a value below ten.
pub open spec fn digit_char(d: nat) -> char {
    if d == 0 {
        '0'
    } else if d == 1 {
        '1'
    } else if d == 2 {
        '2'
    } else if d == 3 {
        '3'
    } else if d == 4 {
        '4'
    } else if d == 5 {
        '5'
    } else if d == 6 {
        '6'
    } else if d == 7 {
        '7'
    } else if d == 8 {
        '8'
    } else {
        '9'
    }
}

/// The usual decimal spelling of `n`, most significant digit first,
/// with no leading zeros (a lone zero for `n == 0`).
pub open spec fn dec_str(n: nat) -> Seq<char>
    decreases n,
{
    if n < 10 {
        seq![digit_char(n)]
    } else {
        dec_str(n / 10) + seq![digit_char(n % 10)]
    }
}

/// `n` spelled with at least two digits: values below ten get a leading zero.
pub open spec fn padded2_str(n: nat) -> Seq<char> {
    if n < 10 {
        seq!['0', digit_char(n)]
    } else {
        dec_str(n)
    }
}

/// Running time of `total` whole seconds: `H:MM:SS` from one hour up,
/// `M:SS` below it, every unit floor-truncated.
pub open spec fn duration_str(total: nat) -> Seq<char> {
    let h = total / 3600;
    let m = (total % 3600) / 60;
    let s = total % 60;
    if h > 0 {
        dec_str(h) + seq![':'] + padded2_str(m) + seq![':'] + padded2_str(s)
    } else {
        dec_str(m) + seq![':'] + padded2_str(s)
    }
}

/// Index of the binary-prefix unit for `bytes`: 0 for B up to 4 for TB,
/// stepping by factors of 1024.
pub open spec fn size_unit_index(bytes: nat) -> nat {
    if bytes < 1024 {
        0
    } else if bytes < 1048576 {
        1
    } else if bytes < 1073741824 {
        2
    } else if bytes < 1099511627776 {
        3
    } else {
        4
    }
}

/// The divisor that scales `bytes` down to the unit at `idx`.
pub open spec fn size_unit_divisor(idx: nat) -> nat {
    if idx == 1 {
        1024
    } else if idx == 2 {
        1048576
    } else if idx == 3 {
        1073741824
    } else {
        1099511627776
    }
}

/// The suffix printed after the scaled value, space included.
pub open spec fn size_unit_str(idx: nat) -> Seq<char> {
    if idx == 0 {
        seq![' ', 'B']
    } else if idx == 1 {
        seq![' ', 'K', 'B']
    } else if idx == 2 {
        seq![' ', 'M', 'B']
    } else if idx == 3 {
        seq![' ', 'G', 'B']
    } else {
        seq![' ', 'T', 'B']
    }
}

/// File size display: whole bytes below 1024, otherwise the size scaled to
/// the largest unit it reaches, with exactly two decimal places, both parts
/// floor-truncated.
pub open spec fn file_size_str(bytes: nat) -> Seq<char> {
    let k = size_unit_index(bytes);
    if k == 0 {
        dec_str(bytes) + size_unit_str(0)
    } else {
        let d = size_unit_divisor(k);
        let whole = bytes / d;
        let frac = (bytes % d) * 100 / d;
        dec_str(whole) + seq!['.'] + padded2_str(frac) + size_unit_str(k)
    }
}

/// One-character string slice for a decimal digit.
fn digit_str(d: u64) -> (r: &'static str)
    requires
        d < 10,
    ensures
        r@ == seq![digit_char(d as nat)],
{
    proof {
        reveal_strlit("0");
        reveal_strlit("1");
        reveal_strlit("2");
        reveal_strlit("3");
        reveal_strlit("4");
        reveal_strlit("5");
        reveal_strlit("6");
        reveal_strlit("7");
        reveal_strlit("8");
        reveal_strlit("9");
    }
    let r: &'static str = if d == 0 {
        "0"
    } else if d == 1 {
        "1"
    } else if d == 2 {
        "2"
    } else if d == 3 {
        "3"
    } else if d == 4 {
        "4"
    } else if d == 5 {
        "5"
    } else if d == 6 {
        "6"
    } else if d == 7 {
        "7"
    } else if d == 8 {
        "8"
    } else {
        "9"
    };
    proof {
        assert(r@ =~= seq![digit_char(d as nat)]);
    }
    r
}

/// Renders `n` in decimal.
pub fn u64_to_string(n: u64) -> (s: String)
    ensures
        s@ == dec_str(n as nat),
    decreases n,
{
    if n < 10 {
        let s = digit_str(n).to_owned();
        proof {
            assert(s@ =~= dec_str(n as nat));
        }
        s
    } else {
        proof {
            assert(n / 10 < n) by (nonlinear_arith)
                requires
                    n >= 10,
            ;
        }
        let mut s = u64_to_string(n / 10);
        s.append(digit_str(n % 10));
        proof {
            assert(s@ =~= dec_str(n as nat));
        }
        s
    }
}

/// Renders `n` with at least two digits, zero-padded below ten.
fn u64_to_padded2(n: u64) -> (s: String)
    ensures
        s@ == padded2_str(n as nat),
{
    if n < 10 {
        proof {
            reveal_strlit("0");
        }
        let mut s = "0".to_owned();
        s.append(digit_str(n));
        proof {
            assert(s@ =~= padded2_str(n as nat));
        }
        s
    } else {
        u64_to_string(n)
    }
}

/// Formats a whole number of seconds as `H:MM:SS` when at least an hour,
/// else `M:SS`, each unit floor-truncated.
pub fn format_duration(seconds: u64) -> (r: String)
    ensures
        r@ == duration_str(seconds as nat),
{
    proof {
        reveal_strlit(":");
    }
    let hours: u64 = seconds / 3600;
    let minutes: u64 = (seconds % 3600) / 60;
    let secs: u64 = seconds % 60;
    if hours > 0 {
        let mut s = u64_to_string(hours);
        s.append(":");
        s.append(u64_to_padded2(minutes).as_str());
        s.append(":");
        s.append(u64_to_padded2(secs).as_str());
        proof {
            assert(s@ =~= duration_str(seconds as nat));
        }
        s
    } else {
        let mut s = u64_to_string(minutes);
        s.append(":");
        s.append(u64_to_padded2(secs).as_str());
        proof {
            assert(s@ =~= duration_str(seconds as nat));
        }
        s
    }
}

/// Formats a byte count with a binary-prefix unit: whole bytes below 1024,
/// otherwise two decimal places at the largest unit reached. Both parts
/// are floor-truncated, deliberately never rounded up — 1048575 bytes show
/// as `1023.99 KB`, not `1024.00 KB` — so the shown size never exceeds the
/// true one.
pub fn format_file_size(bytes: u64) -> (r: String)
    ensures
        r@ == file_size_str(bytes as nat),
{
    let divisor: u64 = if bytes < 1024 {
        1
    } else if bytes < 1048576 {
        1024
    } else if bytes < 1073741824 {
        1048576
    } else if bytes < 1099511627776 {
        1073741824
    } else {
        1099511627776
    };
    let suffix: &'static str = if bytes < 1024 {
        " B"
    } else if bytes < 1048576 {
        " KB"
    } else if bytes < 1073741824 {
        " MB"
    } else if bytes < 1099511627776 {
        " GB"
    } else {
        " TB"
    };
    proof {
        reveal_strlit(" B");
        reveal_strlit(" KB");
        reveal_strlit(" MB");
        reveal_strlit(" GB");
        reveal_strlit(" TB");
        assert(suffix@ =~= size_unit_str(size_unit_index(bytes as nat)));
    }
    if bytes < 1024 {
        let mut s = u64_to_string(bytes);
        s.append(suffix);
        proof {
            assert(s@ =~= file_size_str(bytes as nat));
        }
        s
    } else {
        let whole: u64 = bytes / divisor;
        let rem: u64 = bytes % divisor;
        proof {
            assert((rem as int) * 100 <= (divisor as int) * 100) by (nonlinear_arith)
                requires
                    (rem as int) < (divisor as int),
            ;
            assert((rem as int) * 100 / (divisor as int) < 100) by (nonlinear_arith)
                requires
                    (rem as int) < (divisor as int),
                    0 < (divisor as int),
            ;
        }
        let frac: u64 = rem * 100 / divisor;
        proof {
            reveal_strlit(".");
        }
        let mut s = u64_to_string(whole);
        s.append(".");
        s.append(u64_to_padded2(frac).as_str());
        s.append(suffix);
        proof {
            assert(s@ =~= file_size_str(bytes as nat));
        }
        s
    }
}

/// A decimal digit character.
pub open spec fn is_digit(c: char) -> bool {
    '0' <= c && c <= '9'
}

/// The value of a digit character; zero for any other character, keeping
/// the function total.
pub open spec fn digit_val(c: char) -> nat {
    if is_digit(c) {
        (c as u32 - 48) as nat
    } else {
        0
    }
}

/// The number a digit string denotes, most significant digit first.
pub open spec fn digits_val(s: Seq<char>) -> nat
    decreases s.len(),
{
    if s.len() == 0 {
        0
    } else {
        digits_val(s.drop_last()) * 10 + digit_val(s.last())
    }
}

pub open spec fn all_digits(s: Seq<char>) -> bool {
    forall|i: int| 0 <= i < s.len() ==> is_digit(#[trigger] s[i])
}

/// What parsing a plain digit string yields: the denoted value, provided
/// the string is non-empty, all digits, and the value fits `u64`.
pub open spec fn spec_parse_u64(s: Seq<char>) -> Option<u64> {
    if s.len() > 0 && all_digits(s) && digits_val(s) <= u64::MAX {
        Some(digits_val(s) as u64)
    } else {
        None
    }
}

proof fn lemma_digits_val_step(s: Seq<char>, i: int)
    requires
        0 <= i < s.len(),
    ensures
        digits_val(s.take(i + 1)) == digits_val(s.take(i)) * 10 + digit_val(s[i]),
{
    assert(s.take(i + 1).drop_last() =~= s.take(i));
    assert(s.take(i + 1).last() == s[i]);
}

proof fn lemma_digits_val_monotone(s: Seq<char>, i: int)
    requires
        0 <= i <= s.len(),
    ensures
        digits_val(s) >= digits_val(s.take(i)),
    decreases s.len() - i,
{
    if i < s.len() {
        lemma_digits_val_step(s, i);
        lemma_digits_val_monotone(s, i + 1);
    } else {
        assert(s.take(i) =~= s);
    }
}

/// Parses a non-empty all-digit string as a `u64`.
pub fn parse_u64_digits(s: &str) -> (r: Option<u64>)
    ensures
        r == spec_parse_u64(s@),
{
    let n: usize = s.unicode_len();
    if n == 0 {
        return None;
    }
    let mut val: u64 = 0;
    let mut i: usize = 0;
    proof {
        assert(s@.take(0) =~= Seq::<char>::empty());
    }
    while i < n
        invariant
            i <= n,
            n == s@.len(),
            all_digits(s@.take(i as int)),
            val == digits_val(s@.take(i as int)),
        decreases n - i,
    {
        let c = s.get_char(i);
        if c < '0' || c > '9' {
            proof {
                assert(!is_digit(s@[i as int]));
            }
            return None;
        }
        let d: u64 = ((c as u32) - 48) as u64;
        proof {
            lemma_digits_val_step(s@, i as int);
            assert(all_digits(s@.take(i as int + 1))) by {
                assert(forall|j: int|
                    0 <= j < i as int + 1 ==> s@.take(i as int + 1)[j] == s@[j]);
            }
        }
        if val > (u64::MAX - d) / 10 {
            proof {
                assert(val * 10 + d > u64::MAX) by (nonlinear_arith)
                    requires
                        val > (u64::MAX - d) / 10,
                        d <= 9,
                        val >= 0,
                ;
                lemma_digits_val_monotone(s@, i as int + 1);
            }
            return None;
        }
        proof {
            assert(val * 10 + d <= u64::MAX) by (nonlinear_arith)
                requires
                    val <= (u64::MAX - d) / 10,
                    d <= 9,
                    val >= 0,
            ;
        }
        val = val * 10 + d;
        i = i + 1;
    }
    proof {
        assert(s@.take(n as int) =~= s@);
    }
    Some(val)
}

/// Index of the first occurrence of `c` in `s`, or `-1` if there is none.
pub open spec fn first_idx_of(s: Seq<char>, c: char) -> int
    decreases s.len(),
{
    if s.len() == 0 {
        -1
    } else if s[0] == c {
        0
    } else {
        let r = first_idx_of(s.drop_first(), c);
        if r < 0 {
            -1
        } else {
            r + 1
        }
    }
}

proof fn lemma_first_idx_scan(s: Seq<char>, c: char, i: int)
    requires
        0 <= i <= s.len(),
        forall|j: int| 0 <= j < i ==> s[j] != c,
    ensures
        i < s.len() && s[i] == c ==> first_idx_of(s, c) == i,
        i == s.len() ==> first_idx_of(s, c) == -1,
    decreases i,
{
    if i == 0 {
        if s.len() == 0 {
        }
    } else {
        assert(s[0] != c);
        assert(forall|j: int| 0 <= j < i - 1 ==> s.drop_first()[j] == s[j + 1] && s[j + 1] != c);
        lemma_first_idx_scan(s.drop_first(), c, i - 1);
        if i < s.len() && s[i] == c {
            assert(s.drop_first()[i - 1] == c);
        }
    }
}

/// The duration field as the probe reports it: a whole number of seconds,
/// optionally followed by `.` and a digit fraction, which is dropped
/// (floor, no rounding up).
pub open spec fn spec_parse_duration(s: Seq<char>) -> Option<u64> {
    let k = first_idx_of(s, '.');
    if k < 0 {
        spec_parse_u64(s)
    } else if all_digits(s.skip(k + 1)) {
        spec_parse_u64(s.take(k))
    } else {
        None
    }
}

/// Parses the probe's duration string to whole seconds.
pub fn parse_duration_secs(s: &str) -> (r: Option<u64>)
    ensures
        r == spec_parse_duration(s@),
{
    let n: usize = s.unicode_len();
    let mut scan: usize = 0;
    let mut dot: Option<usize> = None;
    while scan < n
        invariant
            scan <= n,
            n == s@.len(),
            match dot {
                None => forall|j: int| 0 <= j < scan ==> s@[j] != '.',
                Some(k) => (k as int) < scan as int && s@[k as int] == '.' && (forall|j: int|
                    0 <= j < k ==> s@[j] != '.'),
            },
        decreases n - scan,
    {
        if dot.is_none() && s.get_char(scan) == '.' {
            dot = Some(scan);
        }
        scan = scan + 1;
    }
    if dot.is_none() {
        proof {
            lemma_first_idx_scan(s@, '.', n as int);
        }
        parse_u64_digits(s)
    } else {
        let i: usize = dot.unwrap();
        proof {
            lemma_first_idx_scan(s@, '.', i as int);
        }
        let int_part = s.substring_char(0, i);
        let mut j: usize = i + 1;
        while j < n
            invariant
                i as int + 1 <= j as int <= n,
                n == s@.len(),
                i < n,
                s@[i as int] == '.',
                first_idx_of(s@, '.') == i as int,
                forall|t: int| i as int + 1 <= t < j ==> is_digit(#[trigger] s@[t]),
            decreases n - j,
        {
            let c = s.get_char(j);
            if c < '0' || c > '9' {
                proof {
                    assert(s@.skip(i as int + 1)[j as int - (i as int + 1)] == s@[j as int]);
                    assert(!all_digits(s@.skip(i as int + 1)));
                }
                return None;
            }
            j = j + 1;
        }
        proof {
            assert(all_digits(s@.skip(i as int + 1))) by {
                assert forall|t: int|
                    0 <= t < s@.skip(i as int + 1).len() implies is_digit(
                    #[trigger] s@.skip(i as int + 1)[t],
                ) by {
                    assert(s@.skip(i as int + 1)[t] == s@[t + i as int + 1]);
                }
            }
        }
        parse_u64_digits(int_part)
    }
}

} // verus!
