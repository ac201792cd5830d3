use vstd::prelude::*;

verus! {

/// `c` is an ASCII decimal digit.
pub open spec fn is_ascii_digit(c: char) -> bool {
    48 <= (c as u32) <= 57
}

/// The value of a string of decimal digits (most significant first).
pub open spec fn digits_value(ds: Seq<char>) -> int
    decreases ds.len(),
{
    if ds.len() == 0 {
        0
    } else {
        digits_value(ds.drop_last()) * 10 + ((ds.last() as u32) - 48)
    }
}

/// The text starts with a `+` or `-` sign.
pub open spec fn has_sign(s: Seq<char>) -> bool {
    s.len() > 0 && (s[0] == '-' || s[0] == '+')
}

/// The text after an optional sign.
pub open spec fn unsigned_part(s: Seq<char>) -> Seq<char> {
    if has_sign(s) {
        s.drop_first()
    } else {
        s
    }
}

/// All characters are ASCII digits.
pub open spec fn all_digits(ds: Seq<char>) -> bool {
    forall|i: int| 0 <= i < ds.len() ==> is_ascii_digit(#[trigger] ds[i])
}

/// How a decimal `i32` literal reads: an optional `+` or `-` followed by at
/// least one ASCII digit and nothing else, with a value in `i32`'s range.
pub open spec fn parsed_i32(s: Seq<char>) -> Option<i32> {
    let digits = unsigned_part(s);
    let magnitude = digits_value(digits);
    let value = if s.len() > 0 && s[0] == '-' {
        -magnitude
    } else {
        magnitude
    };
    if digits.len() == 0 || !all_digits(digits) {
        None
    } else if i32::MIN <= value <= i32::MAX {
        Some(value as i32)
    } else {
        None
    }
}

/// Appending digits never makes the value smaller.
proof fn lemma_digits_value_grows(ds: Seq<char>, k: int)
    requires
        0 <= k <= ds.len(),
        all_digits(ds),
    ensures
        0 <= digits_value(ds.take(k)) <= digits_value(ds),
    decreases ds.len(),
{
    if k == ds.len() {
        assert(ds.take(k) =~= ds);
        lemma_digits_value_nonneg(ds);
    } else {
        assert(is_ascii_digit(ds[ds.len() - 1]));
        lemma_digits_value_grows(ds.drop_last(), k);
        assert(ds.drop_last().take(k) =~= ds.take(k));
        lemma_digits_value_nonneg(ds.drop_last());
    }
}

proof fn lemma_digits_value_nonneg(ds: Seq<char>)
    requires
        all_digits(ds),
    ensures
        0 <= digits_value(ds),
    decreases ds.len(),
{
    if ds.len() > 0 {
        assert(is_ascii_digit(ds[ds.len() - 1]));
        lemma_digits_value_nonneg(ds.drop_last());
    }
}

/// Reads a decimal `i32`, as `str::parse::<i32>` does: an optional sign,
/// then at least one ASCII digit and nothing else, within `i32`'s range.
fn parse_i32(s: &str) -> (value: Option<i32>)
    ensures
        value == parsed_i32(s@),
{
    let n = s.unicode_len();
    if n == 0 {
        return None;
    }
    let first = s.get_char(0);
    let negative = first == '-';
    let start: usize = if first == '-' || first == '+' {
        1
    } else {
        0
    };
    let ghost digits = unsigned_part(s@);
    if start == n {
        assert(digits.len() == 0);
        return None;
    }
    let mut magnitude: i64 = 0;
    let mut i: usize = start;
    assert(digits.take(0) =~= Seq::<char>::empty());
    while i < n
        invariant
            start <= i <= n,
            n == s@.len(),
            start <= 1,
            n > 0,
            (start == 1) == (s@[0] == '-' || s@[0] == '+'),
            negative == (s@[0] == '-'),
            digits == unsigned_part(s@),
            digits.len() == n - start,
            forall|j: int| 0 <= j < digits.len() ==> digits[j] == s@[j + start],
            all_digits(digits.take(i - start)),
            magnitude == digits_value(digits.take(i - start)),
            0 <= magnitude <= 0x8000_0000,
        decreases n - i,
    {
        let c = s.get_char(i);
        let code = c as u32;
        let ghost k = i - start;
        assert(digits[k] == c);
        if code < 48 || code > 57 {
            assert(!is_ascii_digit(digits[k]));
            assert(!all_digits(digits));
            return None;
        }
        let ghost prefix = digits.take(k + 1);
        assert(prefix.drop_last() =~= digits.take(k));
        assert(prefix.last() == c);
        magnitude = magnitude * 10 + (code as i64 - 48);
        assert(all_digits(prefix));
        i += 1;
        if magnitude > 0x8000_0000 {
            proof {
                if all_digits(digits) {
                    lemma_digits_value_grows(digits, k + 1);
                    assert(digits_value(digits) > 0x8000_0000);
                }
            }
            return None;
        }
    }
    assert(digits.take(n - start) =~= digits);
    let value: i64 = if negative {
        -magnitude
    } else {
        magnitude
    };
    if value < -0x8000_0000 || value > 0x7FFF_FFFF {
        return None;
    }
    Some(value as i32)
}

/// The texture sample selected by name.
pub open spec fn texture_sample_by_name(name: Seq<char>) -> i32 {
    if name == "introduction"@ {
        0
    } else if name == "uniform"@ {
        1
    } else if name == "multi_bind_group"@ {
        2
    } else if name == "2d_array"@ {
        3
    } else if name == "bing_group_multi_entry"@ {
        4
    } else if name == "bindless"@ {
        5
    } else if name == "tilemap"@ {
        6
    } else {
        99
    }
}

/// The minimal sample selected by name.
pub open spec fn minimal_sample_by_name(name: Seq<char>) -> i32 {
    if name == "polygon_simple"@ {
        0
    } else if name == "viewport"@ {
        1
    } else if name == "viewport_strech"@ {
        1
    } else {
        0
    }
}

/// Which sample of the texture program the first argument selects: a
/// number as written, else a sample name, else 99 (the default).
pub fn texture_sample_run_id(arg: Option<&str>) -> (run_id: i32)
    ensures
        run_id == match arg {
            None => 99i32,
            Some(a) => match parsed_i32(a@) {
                Some(n) => n,
                None => texture_sample_by_name(a@),
            },
        },
{
    let default_run_id: i32 = 99;
    match arg {
        Some(arg) => {
            if let Some(num) = parse_i32(arg) {
                num
            } else {
                let name = String::from_str(arg);
                if name == String::from_str("introduction") {
                    0
                } else if name == String::from_str("uniform") {
                    1
                } else if name == String::from_str("multi_bind_group") {
                    2
                } else if name == String::from_str("2d_array") {
                    3
                } else if name == String::from_str("bing_group_multi_entry") {
                    4
                } else if name == String::from_str("bindless") {
                    5
                } else if name == String::from_str("tilemap") {
                    6
                } else {
                    default_run_id
                }
            }
        },
        None => default_run_id,
    }
}

/// Which sample of the minimal program the first argument selects: a
/// number as written, else a sample name, else 0 (the default).
pub fn minimal_sample_run_id(arg: Option<&str>) -> (run_id: i32)
    ensures
        run_id == match arg {
            None => 0i32,
            Some(a) => match parsed_i32(a@) {
                Some(n) => n,
                None => minimal_sample_by_name(a@),
            },
        },
{
    let default_run_id: i32 = 0;
    match arg {
        Some(arg) => {
            if let Some(num) = parse_i32(arg) {
                num
            } else {
                let name = String::from_str(arg);
                if name == String::from_str("polygon_simple") {
                    0
                } else if name == String::from_str("viewport") {
                    1
                } else if name == String::from_str("viewport_strech") {
                    1
                } else {
                    default_run_id
                }
            }
        },
        None => default_run_id,
    }
}

} // verus!
