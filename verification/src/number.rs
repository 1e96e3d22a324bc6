//! Whole numbers in decimal, printed and read, and text in columns.

use vstd::prelude::*;

verus! {

/// The character of a decimal digit.
pub open spec fn digit_char(d: int) -> char {
    (0x30 + d) as char
}

/// Whether `c` is one of `0` to `9`.
pub open spec fn is_digit(c: char) -> bool {
    0x30 <= c as int <= 0x39
}

/// The digits of `n`, most significant first.
pub open spec fn digits(n: nat) -> Seq<char>
    decreases n,
{
    if n < 10 {
        seq![digit_char(n as int)]
    } else {
        digits(n / 10).push(digit_char((n % 10) as int))
    }
}

/// `n` in decimal, with a `-` in front where it is negative.
pub open spec fn decimal(n: int) -> Seq<char> {
    if n < 0 {
        seq!['-'] + digits((-n) as nat)
    } else {
        digits(n as nat)
    }
}

/// The number that a row of digits stands for.
pub open spec fn digits_value(s: Seq<char>) -> int
    decreases s.len(),
{
    if s.len() == 0 {
        0
    } else {
        digits_value(s.drop_last()) * 10 + (s.last() as int - 0x30)
    }
}

/// Whether `s` is a row of digits, at least one.
pub open spec fn all_digits(s: Seq<char>) -> bool {
    s.len() > 0 && forall|i: int| 0 <= i < s.len() ==> is_digit(#[trigger] s[i])
}

/// The number that `s` stands for: digits, with at most one sign before them.
pub open spec fn number_in(s: Seq<char>) -> Option<int> {
    if s.len() > 0 && (s[0] == '-' || s[0] == '+') {
        if !all_digits(s.skip(1)) {
            None
        } else if s[0] == '-' {
            Some(-digits_value(s.skip(1)))
        } else {
            Some(digits_value(s.skip(1)))
        }
    } else if all_digits(s) {
        Some(digits_value(s))
    } else {
        None
    }
}

/// The number that `s` stands for, where it lies between `low` and `high`.
pub open spec fn number_within(s: Seq<char>, low: int, high: int) -> Option<int> {
    match number_in(s) {
        Some(n) => if low <= n <= high {
            Some(n)
        } else {
            None
        },
        None => None,
    }
}

/// The number of a character.
fn code_point(c: char) -> (n: u32)
    ensures
        n == c as int,
{
    c as u32
}

fn push_digit(s: &mut String, d: u64)
    requires
        d < 10,
    ensures
        final(s)@ == old(s)@.push(digit_char(d as int)),
{
    proof {
        reveal_strlit("0");
        reveal_strlit("1");
        reveal_strlit("2");
        reveal_strlit("3");
        reveal_strlit("4");
        reveal_strlit("5");
        reveal_strlit("6");
        reveal_strlit("7");
        reveal_strlit("8");
        reveal_strlit("9");
    }
    let ghost before = s@;
    if d == 0 {
        s.append("0");
    } else if d == 1 {
        s.append("1");
    } else if d == 2 {
        s.append("2");
    } else if d == 3 {
        s.append("3");
    } else if d == 4 {
        s.append("4");
    } else if d == 5 {
        s.append("5");
    } else if d == 6 {
        s.append("6");
    } else if d == 7 {
        s.append("7");
    } else if d == 8 {
        s.append("8");
    } else {
        s.append("9");
    }
    assert(s@ =~= before.push(digit_char(d as int)));
}

/// Appends the digits of `n` to `s`.
fn push_digits(s: &mut String, n: u64)
    ensures
        final(s)@ == old(s)@ + digits(n as nat),
    decreases n,
{
    let ghost before = s@;
    if n >= 10 {
        push_digits(s, n / 10);
    }
    push_digit(s, n % 10);
    assert(s@ =~= before + digits(n as nat));
}

/// `n` in decimal.
pub fn unsigned_text(n: u64) -> (text: String)
    ensures
        text@ == decimal(n as int),
{
    let mut text = String::new();
    push_digits(&mut text, n);
    text
}

/// `n` in decimal.
pub fn signed_text(n: i64) -> (text: String)
    ensures
        text@ == decimal(n as int),
{
    let mut text = String::new();
    if n < 0 {
        proof {
            reveal_strlit("-");
        }
        text.append("-");
        push_digits(&mut text, (-(n + 1)) as u64 + 1);
        assert(text@ =~= decimal(n as int));
    } else {
        push_digits(&mut text, n as u64);
        assert(text@ =~= decimal(n as int));
    }
    text
}

proof fn lemma_digits_value_grows(s: Seq<char>, k: int)
    requires
        all_digits(s),
        0 <= k <= s.len(),
    ensures
        0 <= digits_value(s.take(k)) <= digits_value(s),
    decreases s.len() - k, k,
{
    lemma_digits_value_nonnegative(s.take(k));
    if k < s.len() {
        lemma_digits_value_grows(s, k + 1);
        assert(s.take(k + 1).drop_last() =~= s.take(k));
        assert(is_digit(s[k]));
    } else {
        assert(s.take(k) =~= s);
    }
}

proof fn lemma_digits_value_nonnegative(s: Seq<char>)
    requires
        forall|i: int| 0 <= i < s.len() ==> is_digit(#[trigger] s[i]),
    ensures
        0 <= digits_value(s),
    decreases s.len(),
{
    if s.len() > 0 {
        lemma_digits_value_nonnegative(s.drop_last());
        assert(is_digit(s[s.len() - 1]));
    }
}

/// The largest magnitude that a signed 64-bit number has.
const LARGEST: u64 = 0x8000_0000_0000_0000;

/// The value of the digits from `from` on, where they are digits and it is no
/// larger than [`LARGEST`].
fn magnitude(chars: &Vec<char>, from: usize) -> (value: Option<u64>)
    requires
        from <= chars@.len(),
    ensures
        match value {
            Some(v) => all_digits(chars@.skip(from as int)) && v <= LARGEST && v == digits_value(
                chars@.skip(from as int),
            ),
            None => !all_digits(chars@.skip(from as int)) || digits_value(chars@.skip(from as int))
                > LARGEST,
        },
{
    let n = chars.len();
    let ghost s = chars@.skip(from as int);
    if from == n {
        return None;
    }
    let mut i: usize = from;
    let mut value: u64 = 0;
    while i < n
        invariant
            n == chars@.len(),
            s == chars@.skip(from as int),
            from <= i <= n,
            value <= LARGEST,
            value == digits_value(s.take(i - from)),
            forall|k: int| 0 <= k < i - from ==> is_digit(#[trigger] s[k]),
        decreases n - i,
    {
        let c = code_point(chars[i]);
        assert(s[i - from] == chars@[i as int]);
        if c < 0x30 || c > 0x39 {
            assert(!is_digit(s[i - from]));
            return None;
        }
        let d = (c - 0x30) as u64;
        assert(s.take(i - from + 1).drop_last() =~= s.take(i - from));
        if value > (LARGEST - d) / 10 {
            proof {
                if all_digits(s) {
                    lemma_digits_value_grows(s, i - from + 1);
                }
            }
            return None;
        }
        value = value * 10 + d;
        i = i + 1;
    }
    assert(s.take(n - from) =~= s);
    Some(value)
}

/// Reads a signed 64-bit number.
pub fn parse_i64(s: &str) -> (value: Option<i64>)
    ensures
        value == (match number_within(s@, i64::MIN as int, i64::MAX as int) {
            Some(n) => Some(n as i64),
            None => None,
        }),
{
    let chars = crate::text::chars_of(s);
    if chars.len() > 0 && (chars[0] == '-' || chars[0] == '+') {
        match magnitude(&chars, 1) {
            None => None,
            Some(m) => {
                if chars[0] == '-' {
                    if m == LARGEST {
                        Some(i64::MIN)
                    } else {
                        Some(-(m as i64))
                    }
                } else if m == LARGEST {
                    None
                } else {
                    Some(m as i64)
                }
            },
        }
    } else {
        assert(chars@.skip(0) =~= s@);
        match magnitude(&chars, 0) {
            None => None,
            Some(m) => {
                if m == LARGEST {
                    None
                } else {
                    Some(m as i64)
                }
            },
        }
    }
}

/// Reads a signed 32-bit number.
pub fn parse_i32(s: &str) -> (value: Option<i32>)
    ensures
        value == (match number_within(s@, i32::MIN as int, i32::MAX as int) {
            Some(n) => Some(n as i32),
            None => None,
        }),
{
    match parse_i64(s) {
        Some(n) => {
            if n < i32::MIN as i64 || n > i32::MAX as i64 {
                None
            } else {
                Some(n as i32)
            }
        },
        None => None,
    }
}

/// The digits that a text begins with.
pub open spec fn leading_digits(s: Seq<char>) -> Seq<char>
    decreases s.len(),
{
    if s.len() > 0 && is_digit(s[0]) {
        seq![s[0]] + leading_digits(s.skip(1))
    } else {
        Seq::empty()
    }
}

/// Why a text is no number between `low` and `high`, or none where it is one. The
/// digits that it begins with count before what comes after them.
pub open spec fn parse_problem(s: Seq<char>, low: int, high: int) -> Option<Seq<char>> {
    let signed = s.len() > 0 && (s[0] == '-' || s[0] == '+');
    let value = digits_value(
        leading_digits(
            if signed {
                s.skip(1)
            } else {
                s
            },
        ),
    );
    if number_within(s, low, high) is Some {
        None
    } else if s.len() == 0 {
        Some("cannot parse integer from empty string"@)
    } else if s[0] == '-' && -value < low {
        Some("number too small to fit in target type"@)
    } else if s[0] != '-' && value > high {
        Some("number too large to fit in target type"@)
    } else {
        Some("invalid digit found in string"@)
    }
}

proof fn lemma_leading_digits(s: Seq<char>, k: int)
    requires
        0 <= k <= s.len(),
        forall|i: int| 0 <= i < k ==> is_digit(#[trigger] s[i]),
    ensures
        k <= leading_digits(s).len(),
        leading_digits(s).take(k) == s.take(k),
        forall|i: int|
            0 <= i < leading_digits(s).len() ==> is_digit(#[trigger] leading_digits(s)[i]),
        k == s.len() || !is_digit(s[k]) ==> leading_digits(s) == s.take(k),
    decreases s.len(),
{
    let lead = leading_digits(s);
    if s.len() > 0 && is_digit(s[0]) {
        let rest = s.skip(1);
        let j = if k > 0 {
            k - 1
        } else {
            0
        };
        assert forall|i: int| 0 <= i < j implies is_digit(#[trigger] rest[i]) by {
            assert(rest[i] == s[i + 1]);
        }
        lemma_leading_digits(rest, j);
        let tail = leading_digits(rest);
        assert forall|i: int| 0 <= i < lead.len() implies is_digit(#[trigger] lead[i]) by {
            if i > 0 {
                assert(lead[i] == tail[i - 1]);
            }
        }
        if k > 0 {
            assert(lead.take(k) =~= s.take(k)) by {
                assert forall|i: int| 0 <= i < k implies lead[i] == s[i] by {
                    if i > 0 {
                        assert(lead[i] == tail.take(j)[i - 1]);
                        assert(rest.take(j)[i - 1] == s[i]);
                    }
                }
            }
            if k == s.len() || !is_digit(s[k]) {
                assert(k < s.len() ==> rest[j] == s[k]);
                assert(lead =~= s.take(k));
            }
        } else {
            assert(lead.take(0) =~= s.take(0));
        }
    } else {
        assert(lead.take(0) =~= s.take(0));
        assert(lead =~= s.take(0));
    }
}

/// Whether the digits from `from` on, as far as there are digits, stand for more than
/// `limit`.
fn exceeds(chars: &Vec<char>, from: usize, limit: u64) -> (more: bool)
    requires
        from <= chars@.len(),
        9 <= limit <= LARGEST,
    ensures
        more == (digits_value(leading_digits(chars@.skip(from as int))) > limit),
{
    let n = chars.len();
    let ghost s = chars@.skip(from as int);
    let mut i: usize = from;
    let mut value: u64 = 0;
    while i < n
        invariant
            n == chars@.len(),
            s == chars@.skip(from as int),
            from <= i <= n,
            9 <= limit <= LARGEST,
            value <= limit,
            value == digits_value(s.take(i - from)),
            forall|k: int| 0 <= k < i - from ==> is_digit(#[trigger] s[k]),
        decreases n - i,
    {
        let c = code_point(chars[i]);
        let ghost k = i - from;
        assert(s[k] == chars@[i as int]);
        if c < 0x30 || c > 0x39 {
            proof {
                lemma_leading_digits(s, k);
            }
            return false;
        }
        let d = (c - 0x30) as u64;
        assert(s.take(k + 1).drop_last() =~= s.take(k));
        if value > (limit - d) / 10 {
            proof {
                lemma_leading_digits(s, k + 1);
                lemma_digits_value_grows(leading_digits(s), k + 1);
            }
            return true;
        }
        value = value * 10 + d;
        i = i + 1;
    }
    proof {
        lemma_leading_digits(s, n - from);
    }
    false
}

/// Why a text is no signed 64-bit number, or none where it is one.
pub fn parse_error(s: &str) -> (problem: Option<String>)
    ensures
        crate::api::opt_text(problem) == parse_problem(s@, i64::MIN as int, i64::MAX as int),
{
    if parse_i64(s).is_some() {
        return None;
    }
    let chars = crate::text::chars_of(s);
    if chars.len() == 0 {
        return Some("cannot parse integer from empty string".to_string());
    }
    let invalid = "invalid digit found in string";
    Some(
        if chars[0] == '-' {
            if exceeds(&chars, 1, LARGEST) {
                "number too small to fit in target type".to_string()
            } else {
                invalid.to_string()
            }
        } else {
            let from: usize = if chars[0] == '+' {
                1
            } else {
                0
            };
            assert(chars@.skip(0) =~= s@);
            if exceeds(&chars, from, LARGEST - 1) {
                "number too large to fit in target type".to_string()
            } else {
                invalid.to_string()
            }
        },
    )
}

proof fn lemma_digits_read_back(n: nat)
    ensures
        all_digits(digits(n)),
        digits_value(digits(n)) == n,
    decreases n,
{
    if n < 10 {
        let s = digits(n);
        assert(s.drop_last() =~= Seq::<char>::empty());
        assert(s.last() == digit_char(n as int));
        assert(digits_value(Seq::<char>::empty()) == 0);
        assert(digits_value(s) == n);
    } else {
        lemma_digits_read_back(n / 10);
        let s = digits(n);
        assert(s.drop_last() =~= digits(n / 10));
        assert forall|i: int| 0 <= i < s.len() implies is_digit(#[trigger] s[i]) by {
            if i < s.len() - 1 {
                assert(s[i] == digits(n / 10)[i]);
            }
        }
    }
}

/// A number that was printed in decimal reads back as itself.
pub proof fn law_decimal_reads_back(n: int)
    ensures
        number_in(decimal(n)) == Some(n),
{
    if n < 0 {
        lemma_digits_read_back((-n) as nat);
        assert(decimal(n).skip(1) =~= digits((-n) as nat));
    } else {
        lemma_digits_read_back(n as nat);
        assert(is_digit(digits(n as nat)[0]));
    }
}

/// `width` blanks, or as many as a negative number allows: none.
pub open spec fn blanks(width: int) -> Seq<char> {
    Seq::new(if width > 0 { width as nat } else { 0 }, |i: int| ' ')
}

/// `s` with blanks after it up to `width` characters.
pub open spec fn left_aligned(s: Seq<char>, width: int) -> Seq<char> {
    s + blanks(width - s.len())
}

/// `s` with blanks before it up to `width` characters.
pub open spec fn right_aligned(s: Seq<char>, width: int) -> Seq<char> {
    blanks(width - s.len()) + s
}

/// The blanks that a text of `used` characters lacks to `width`.
fn fill(used: usize, width: usize) -> (blank: String)
    ensures
        blank@ == blanks(width - used),
{
    let mut blank = String::new();
    let mut i: usize = used;
    while i < width
        invariant
            used <= i,
            i <= width || i == used,
            blank@ == blanks(i - used),
        decreases width - i,
    {
        proof {
            reveal_strlit(" ");
        }
        blank.append(" ");
        i = i + 1;
        assert(blank@ =~= blanks(i - used));
    }
    assert(blank@ =~= blanks(width - used));
    blank
}

/// `s` with blanks after it up to `width` characters.
pub fn align_left(s: &str, width: usize) -> (aligned: String)
    ensures
        aligned@ == left_aligned(s@, width as int),
{
    let mut aligned = s.to_string();
    aligned.append(fill(s.unicode_len(), width).as_str());
    aligned
}

/// `s` with blanks before it up to `width` characters.
pub fn align_right(s: &str, width: usize) -> (aligned: String)
    ensures
        aligned@ == right_aligned(s@, width as int),
{
    let mut aligned = fill(s.unicode_len(), width);
    aligned.append(s);
    aligned
}

/// A number that was printed in decimal and stands between blanks or alone has no
/// blank of its own: a trim leaves it as it is.
pub proof fn lemma_decimal_is_trimmed(n: int)
    ensures
        decimal(n).len() > 0,
        crate::text::trimmed(decimal(n)) == decimal(n),
        !decimal(n).contains(','),
{
    let s = decimal(n);
    if n < 0 {
        lemma_digits_read_back((-n) as nat);
        let d = digits((-n) as nat);
        assert(s.last() == d[d.len() - 1]);
        assert(is_digit(d[d.len() - 1]));
        assert forall|i: int| 0 <= i < s.len() implies s[i] != ',' by {
            if i > 0 {
                assert(s[i] == d[i - 1]);
                assert(is_digit(d[i - 1]));
            }
        }
    } else {
        lemma_digits_read_back(n as nat);
        assert(is_digit(s[0]));
        assert(is_digit(s[s.len() - 1]));
        assert forall|i: int| 0 <= i < s.len() implies s[i] != ',' by {
            assert(is_digit(s[i]));
        }
    }
    crate::text::lemma_trimmed_is_itself(s);
}

/// A number in decimal is made of digits, with a `-` at most.
pub proof fn lemma_decimal_chars(n: int)
    ensures
        decimal(n).len() > 0,
        forall|i: int|
            0 <= i < decimal(n).len() ==> is_digit(#[trigger] decimal(n)[i]) || decimal(n)[i]
                == '-',
{
    let s = decimal(n);
    if n < 0 {
        lemma_digits_read_back((-n) as nat);
        let d = digits((-n) as nat);
        assert forall|i: int| 0 <= i < s.len() implies is_digit(#[trigger] s[i]) || s[i] == '-' by {
            if i > 0 {
                assert(s[i] == d[i - 1]);
                assert(is_digit(d[i - 1]));
            }
        }
    } else {
        lemma_digits_read_back(n as nat);
    }
}

/// A column holds its text whole, at its left or right edge, with blanks beside it up to
/// the column's width.
pub proof fn law_columns_are_padded_with_blanks(s: Seq<char>, width: nat)
    ensures
        left_aligned(s, width as int).len() == (if s.len() < width {
            width
        } else {
            s.len()
        }),
        right_aligned(s, width as int).len() == left_aligned(s, width as int).len(),
        left_aligned(s, width as int).take(s.len() as int) == s,
        right_aligned(s, width as int).skip(right_aligned(s, width as int).len() - s.len()) == s,
        forall|i: int|
            s.len() <= i < left_aligned(s, width as int).len() ==> #[trigger] left_aligned(
                s,
                width as int,
            )[i] == ' ',
        forall|i: int|
            0 <= i < right_aligned(s, width as int).len() - s.len() ==> #[trigger] right_aligned(
                s,
                width as int,
            )[i] == ' ',
{
    assert(left_aligned(s, width as int).take(s.len() as int) =~= s);
    let right = right_aligned(s, width as int);
    assert(right.skip(right.len() - s.len()) =~= s);
}

} // verus!
