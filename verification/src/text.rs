//! Decimal text: the wire format of every identifier, port number and counter.

use vstd::prelude::*;
use vstd::string::*;

verus! {

/// The numeric value of a decimal digit character, or `-1` for any other character.
pub open spec fn digit_value(c: char) -> int {
    if c == '0' {
        0
    } else if c == '1' {
        1
    } else if c == '2' {
        2
    } else if c == '3' {
        3
    } else if c == '4' {
        4
    } else if c == '5' {
        5
    } else if c == '6' {
        6
    } else if c == '7' {
        7
    } else if c == '8' {
        8
    } else if c == '9' {
        9
    } else {
        -1
    }
}

/// The character that writes the digit `d`, for `d < 10`.
pub open spec fn digit_char(d: nat) -> char {
    if d == 0 {
        '0'
    } else if d == 1 {
        '1'
    } else if d == 2 {
        '2'
    } else if d == 3 {
        '3'
    } else if d == 4 {
        '4'
    } else if d == 5 {
        '5'
    } else if d == 6 {
        '6'
    } else if d == 7 {
        '7'
    } else if d == 8 {
        '8'
    } else {
        '9'
    }
}

/// The shortest decimal notation of `n`: no sign, no leading zero except for zero itself.
pub open spec fn decimal(n: nat) -> Seq<char>
    decreases n,
{
    if n < 10 {
        seq![digit_char(n)]
    } else {
        decimal(n / 10).push(digit_char(n % 10))
    }
}

/// Decimal notation of a possibly negative number: a minus sign in front of the
/// notation of its magnitude.
pub open spec fn signed_decimal(i: int) -> Seq<char> {
    if i < 0 {
        seq!['-'] + decimal((-i) as nat)
    } else {
        decimal(i as nat)
    }
}

/// Every character of `s` is a decimal digit.
pub open spec fn all_digits(s: Seq<char>) -> bool {
    forall|i: int| 0 <= i < s.len() ==> digit_value(#[trigger] s[i]) >= 0
}

/// The number that a run of digits denotes, most significant digit first.
pub open spec fn digits_value(s: Seq<char>) -> int
    decreases s.len(),
{
    if s.len() == 0 {
        0
    } else {
        digits_value(s.drop_last()) * 10 + digit_value(s.last())
    }
}

/// What an unsigned field denotes: an optional `+`, then at least one digit and
/// nothing else, with a value of at most `max`.
pub open spec fn parse_unsigned(s: Seq<char>, max: int) -> Option<int> {
    let body = if s.len() > 0 && s[0] == '+' {
        s.subrange(1, s.len() as int)
    } else {
        s
    };
    if body.len() > 0 && all_digits(body) && digits_value(body) <= max {
        Some(digits_value(body))
    } else {
        None
    }
}

/// What a signed field denotes: an optional `+` or `-`, then at least one digit
/// and nothing else, with a value between `min` and `max`.
pub open spec fn parse_signed(s: Seq<char>, min: int, max: int) -> Option<int> {
    let negative = s.len() > 0 && s[0] == '-';
    let body = if s.len() > 0 && (s[0] == '+' || s[0] == '-') {
        s.subrange(1, s.len() as int)
    } else {
        s
    };
    let value = if negative {
        -digits_value(body)
    } else {
        digits_value(body)
    };
    if body.len() > 0 && all_digits(body) && min <= value <= max {
        Some(value)
    } else {
        None
    }
}

/// The one-character text of a digit.
fn digit_str(d: u64) -> (s: &'static str)
    requires
        d < 10,
    ensures
        s@ == seq![digit_char(d as nat)],
{
    proof {
        reveal_strlit("0");
        reveal_strlit("1");
        reveal_strlit("2");
        reveal_strlit("3");
        reveal_strlit("4");
        reveal_strlit("5");
        reveal_strlit("6");
        reveal_strlit("7");
        reveal_strlit("8");
        reveal_strlit("9");
    }
    let s = if d == 0 {
        "0"
    } else if d == 1 {
        "1"
    } else if d == 2 {
        "2"
    } else if d == 3 {
        "3"
    } else if d == 4 {
        "4"
    } else if d == 5 {
        "5"
    } else if d == 6 {
        "6"
    } else if d == 7 {
        "7"
    } else if d == 8 {
        "8"
    } else {
        "9"
    };
    assert(s@ =~= seq![digit_char(d as nat)]);
    s
}

/// Writes `n` in decimal.
pub fn decimal_string(n: u64) -> (s: String)
    ensures
        s@ == decimal(n as nat),
    decreases n,
{
    if n < 10 {
        String::from_str(digit_str(n))
    } else {
        let mut s = decimal_string(n / 10);
        s.append(digit_str(n % 10));
        assert(s@ =~= decimal(n as nat));
        s
    }
}

/// Writes `i` in decimal, with a leading minus sign when it is negative.
pub fn signed_decimal_string(i: i64) -> (s: String)
    ensures
        s@ == signed_decimal(i as int),
{
    if i < 0 {
        proof {
            reveal_strlit("-");
        }
        let magnitude: u64 = (-(i + 1)) as u64 + 1;
        let digits = decimal_string(magnitude);
        let mut s = String::from_str("-");
        s.append(digits.as_str());
        assert(s@ =~= signed_decimal(i as int));
        s
    } else {
        decimal_string(i as u64)
    }
}

/// The value of a digit character, if it is one.
fn digit_of(c: char) -> (r: Option<u64>)
    ensures
        match r {
            Some(d) => d < 10 && digit_value(c) == d,
            None => digit_value(c) == -1,
        },
{
    if c == '0' {
        Some(0)
    } else if c == '1' {
        Some(1)
    } else if c == '2' {
        Some(2)
    } else if c == '3' {
        Some(3)
    } else if c == '4' {
        Some(4)
    } else if c == '5' {
        Some(5)
    } else if c == '6' {
        Some(6)
    } else if c == '7' {
        Some(7)
    } else if c == '8' {
        Some(8)
    } else if c == '9' {
        Some(9)
    } else {
        None
    }
}

/// A run of digits never denotes a negative number.
pub proof fn lemma_digits_value_nonnegative(s: Seq<char>)
    requires
        all_digits(s),
    ensures
        digits_value(s) >= 0,
    decreases s.len(),
{
    if s.len() > 0 {
        assert(all_digits(s.drop_last())) by {
            assert forall|i: int| 0 <= i < s.drop_last().len() implies digit_value(
                #[trigger] s.drop_last()[i],
            ) >= 0 by {
                assert(s.drop_last()[i] == s[i]);
            }
        }
        lemma_digits_value_nonnegative(s.drop_last());
        assert(digit_value(s.last()) >= 0) by {
            assert(s.last() == s[s.len() - 1]);
        }
    }
}

/// Reads the digits of `s` from `start` to its end: their value when there is
/// at least one character, all are digits and the value is at most `max`.
fn parse_digits(s: &str, start: usize, max: u64) -> (r: Option<u64>)
    requires
        start <= s@.len(),
    ensures
        ({
            let body = s@.subrange(start as int, s@.len() as int);
            if body.len() > 0 && all_digits(body) && digits_value(body) <= max {
                r == Some(digits_value(body) as u64)
            } else {
                r is None
            }
        }),
{
    let len = s.unicode_len();
    let ghost body = s@.subrange(start as int, len as int);
    let mut acc: u64 = 0;
    let mut over = false;
    let mut i: usize = start;
    while i < len
        invariant
            start <= i <= len,
            len == s@.len(),
            body == s@.subrange(start as int, len as int),
            all_digits(s@.subrange(start as int, i as int)),
            !over ==> acc == digits_value(s@.subrange(start as int, i as int)) && acc <= max,
            over ==> digits_value(s@.subrange(start as int, i as int)) > max,
        decreases len - i,
    {
        let c = s.get_char(i);
        let ghost before = s@.subrange(start as int, i as int);
        let ghost after = s@.subrange(start as int, i + 1);
        proof {
            assert(after.drop_last() =~= before);
            assert(after.last() == c);
            assert(body[i - start] == c);
            lemma_digits_value_nonnegative(before);
        }
        match digit_of(c) {
            None => {
                assert(!all_digits(body));
                return None;
            },
            Some(d) => {
                assert(all_digits(after)) by {
                    assert forall|j: int| 0 <= j < after.len() implies digit_value(
                        #[trigger] after[j],
                    ) >= 0 by {
                        if j < before.len() {
                            assert(after[j] == before[j]);
                        }
                    }
                }
                if !over {
                    let wide: u128 = acc as u128 * 10 + d as u128;
                    if wide > max as u128 {
                        over = true;
                    } else {
                        acc = wide as u64;
                    }
                }
            },
        }
        i += 1;
    }
    assert(s@.subrange(start as int, i as int) =~= body);
    if len == start || over {
        None
    } else {
        Some(acc)
    }
}

/// Reads an unsigned 64-bit number: an optional `+`, then digits only.
pub fn parse_u64(s: &str) -> (r: Option<u64>)
    ensures
        match parse_unsigned(s@, u64::MAX as int) {
            Some(v) => r == Some(v as u64),
            None => r is None,
        },
{
    let len = s.unicode_len();
    if len > 0 && s.get_char(0) == '+' {
        parse_digits(s, 1, u64::MAX)
    } else {
        assert(s@.subrange(0, s@.len() as int) =~= s@);
        parse_digits(s, 0, u64::MAX)
    }
}

/// Reads an unsigned 32-bit number: an optional `+`, then digits only.
pub fn parse_u32(s: &str) -> (r: Option<u32>)
    ensures
        match parse_unsigned(s@, u32::MAX as int) {
            Some(v) => r == Some(v as u32),
            None => r is None,
        },
{
    let len = s.unicode_len();
    let digits = if len > 0 && s.get_char(0) == '+' {
        parse_digits(s, 1, 0xffff_ffff)
    } else {
        assert(s@.subrange(0, s@.len() as int) =~= s@);
        parse_digits(s, 0, 0xffff_ffff)
    };
    proof {
        let body = if len > 0 && s@[0] == '+' {
            s@.subrange(1, s@.len() as int)
        } else {
            s@
        };
        if all_digits(body) {
            lemma_digits_value_nonnegative(body);
        }
    }
    match digits {
        Some(v) => Some(v as u32),
        None => None,
    }
}

/// Reads a signed 32-bit number: an optional `+` or `-`, then digits only.
pub fn parse_i32(s: &str) -> (r: Option<i32>)
    ensures
        match parse_signed(s@, i32::MIN as int, i32::MAX as int) {
            Some(v) => r == Some(v as i32),
            None => r is None,
        },
{
    let len = s.unicode_len();
    if len > 0 && s.get_char(0) == '-' {
        proof {
            if all_digits(s@.subrange(1, s@.len() as int)) {
                lemma_digits_value_nonnegative(s@.subrange(1, s@.len() as int));
            }
        }
        match parse_digits(s, 1, 0x8000_0000) {
            Some(v) => Some((-(v as i64)) as i32),
            None => None,
        }
    } else {
        let digits = if len > 0 && s.get_char(0) == '+' {
            parse_digits(s, 1, 0x7fff_ffff)
        } else {
            assert(s@.subrange(0, s@.len() as int) =~= s@);
            parse_digits(s, 0, 0x7fff_ffff)
        };
        proof {
            let body = if len > 0 && s@[0] == '+' {
                s@.subrange(1, s@.len() as int)
            } else {
                s@
            };
            if all_digits(body) {
                lemma_digits_value_nonnegative(body);
            }
        }
        match digits {
            Some(v) => Some(v as i32),
            None => None,
        }
    }
}

/// Decimal notation is a non-empty run of digits that denotes the number written.
pub proof fn lemma_decimal_is_digits(n: nat)
    ensures
        decimal(n).len() > 0,
        all_digits(decimal(n)),
        digits_value(decimal(n)) == n,
    decreases n,
{
    let c = digit_char(n % 10);
    assert(digit_value(c) == n % 10);
    if n < 10 {
        assert(decimal(n).drop_last() =~= Seq::<char>::empty());
        assert(decimal(n).last() == c);
        assert(digits_value(decimal(n).drop_last()) == 0);
    } else {
        lemma_decimal_is_digits(n / 10);
        let head = decimal(n / 10);
        assert(decimal(n).drop_last() =~= head);
        assert(decimal(n).last() == c);
        assert forall|i: int| 0 <= i < decimal(n).len() implies digit_value(
            #[trigger] decimal(n)[i],
        ) >= 0 by {
            if i < head.len() {
                assert(decimal(n)[i] == head[i]);
            }
        }
    }
}

/// Reading back what was written gives the number: the unsigned notation of
/// `n` parses to `n` under every bound that admits it.
pub proof fn lemma_parse_unsigned_decimal(n: nat, max: int)
    requires
        n <= max,
    ensures
        parse_unsigned(decimal(n), max) == Some(n as int),
{
    lemma_decimal_is_digits(n);
    assert(digit_value(decimal(n)[0]) >= 0);
}

/// Reading back what was written gives the number: the signed notation of `i`
/// parses to `i` under every range that admits it.
pub proof fn lemma_parse_signed_decimal(i: int, min: int, max: int)
    requires
        min <= i <= max,
    ensures
        parse_signed(signed_decimal(i), min, max) == Some(i),
{
    if i < 0 {
        let digits = decimal((-i) as nat);
        lemma_decimal_is_digits((-i) as nat);
        let s = signed_decimal(i);
        assert(s[0] == '-');
        assert(s.subrange(1, s.len() as int) =~= digits);
    } else {
        lemma_decimal_is_digits(i as nat);
        assert(digit_value(decimal(i as nat)[0]) >= 0);
    }
}

/// Two numbers with the same decimal notation are the same number.
pub proof fn lemma_decimal_injective(a: nat, b: nat)
    requires
        decimal(a) == decimal(b),
    ensures
        a == b,
{
    lemma_decimal_is_digits(a);
    lemma_decimal_is_digits(b);
}

/// Length of the first line of `s`, its newline included: the whole of `s` when
/// it holds no newline.
pub open spec fn line_len(s: Seq<char>) -> nat
    decreases s.len(),
{
    if s.len() == 0 {
        0
    } else if s.first() == '\n' {
        1
    } else {
        1 + line_len(s.drop_first())
    }
}

/// The first line of `s`, up to and including its newline.
pub open spec fn first_line(s: Seq<char>) -> Seq<char> {
    s.subrange(0, line_len(s) as int)
}

/// What follows the first line of `s`.
pub open spec fn after_first_line(s: Seq<char>) -> Seq<char> {
    s.subrange(line_len(s) as int, s.len() as int)
}

/// A line without its newline: `s` without its last character where that is
/// a newline, and the whole of `s` where it is not.
pub open spec fn line_body(s: Seq<char>) -> Seq<char> {
    if s.len() > 0 && s.last() == '\n' {
        s.drop_last()
    } else {
        s
    }
}

/// The first line never runs past the end of the text.
pub proof fn lemma_line_len_bounded(s: Seq<char>)
    ensures
        line_len(s) <= s.len(),
    decreases s.len(),
{
    if s.len() > 0 && s.first() != '\n' {
        lemma_line_len_bounded(s.drop_first());
    }
}

/// Cuts `s` after its first newline: the first line, newline included, and the rest.
pub fn split_line(s: &str) -> (r: (&str, &str))
    ensures
        r.0@ == first_line(s@),
        r.1@ == after_first_line(s@),
{
    let len = s.unicode_len();
    let mut i: usize = 0;
    let mut found = false;
    assert(s@.subrange(0, len as int) =~= s@);
    while i < len && !found
        invariant
            0 <= i <= len,
            len == s@.len(),
            !found ==> line_len(s@) == i + line_len(s@.subrange(i as int, len as int)),
            found ==> line_len(s@) == i,
        decreases len - i + (if found { 0int } else { 1int }),
    {
        let ghost tail = s@.subrange(i as int, len as int);
        assert(tail.first() == s@[i as int]);
        assert(tail.drop_first() =~= s@.subrange(i + 1, len as int));
        if s.get_char(i) == '\n' {
            found = true;
        }
        i += 1;
    }
    assert(line_len(s@) == i) by {
        if !found {
            assert(s@.subrange(i as int, len as int).len() == 0);
        }
    }
    (s.substring_char(0, i), s.substring_char(i, len))
}

/// Takes the newline off the end of a line; a line without one stays whole.
pub fn strip_newline(s: &str) -> (r: &str)
    ensures
        r@ == line_body(s@),
{
    let len = s.unicode_len();
    if len > 0 && s.get_char(len - 1) == '\n' {
        let r = s.substring_char(0, len - 1);
        assert(r@ =~= s@.drop_last());
        r
    } else {
        s
    }
}

/// An unsigned field denotes a number between zero and its bound.
pub proof fn lemma_parse_unsigned_range(s: Seq<char>, max: int)
    ensures
        parse_unsigned(s, max) matches Some(v) ==> 0 <= v <= max,
{
    let body = if s.len() > 0 && s[0] == '+' {
        s.subrange(1, s.len() as int)
    } else {
        s
    };
    if all_digits(body) {
        lemma_digits_value_nonnegative(body);
    }
}

/// `s` holds no newline.
pub open spec fn no_newline(s: Seq<char>) -> bool {
    forall|i: int| 0 <= i < s.len() ==> #[trigger] s[i] != '\n'
}

/// A text that starts with a newline-free `a` and a newline has `a` and that
/// newline as its first line, and what follows as the rest.
pub proof fn lemma_first_line_of_line(a: Seq<char>, b: Seq<char>)
    requires
        no_newline(a),
    ensures
        first_line(a.push('\n') + b) == a.push('\n'),
        after_first_line(a.push('\n') + b) == b,
        line_body(first_line(a.push('\n') + b)) == a,
{
    let s = a.push('\n') + b;
    lemma_line_len_of_line(a, b);
    assert(s.subrange(0, (a.len() + 1) as int) =~= a.push('\n'));
    assert(s.subrange((a.len() + 1) as int, s.len() as int) =~= b);
    assert(a.push('\n').drop_last() =~= a);
}

/// The first line of a text that starts with a newline-free `a` and a newline
/// is one character longer than `a`.
pub proof fn lemma_line_len_of_line(a: Seq<char>, b: Seq<char>)
    requires
        no_newline(a),
    ensures
        line_len(a.push('\n') + b) == a.len() + 1,
    decreases a.len(),
{
    let s = a.push('\n') + b;
    if a.len() == 0 {
        assert(s.first() == '\n');
    } else {
        assert(s.first() == a[0]);
        assert(s.drop_first() =~= a.drop_first().push('\n') + b);
        assert(no_newline(a.drop_first())) by {
            assert forall|i: int| 0 <= i < a.drop_first().len() implies #[trigger] a.drop_first()[i]
                != '\n' by {
                assert(a.drop_first()[i] == a[i + 1]);
            }
        }
        lemma_line_len_of_line(a.drop_first(), b);
    }
}

/// Decimal notation, signed or not, holds no newline.
pub proof fn lemma_decimal_no_newline(i: int)
    ensures
        no_newline(signed_decimal(i)),
        i >= 0 ==> no_newline(decimal(i as nat)),
{
    let magnitude = if i < 0 {
        (-i) as nat
    } else {
        i as nat
    };
    lemma_decimal_is_digits(magnitude);
    let digits = decimal(magnitude);
    assert forall|k: int| 0 <= k < digits.len() implies #[trigger] digits[k] != '\n' by {
        assert(digit_value(digits[k]) >= 0);
    }
    if i < 0 {
        let s = signed_decimal(i);
        assert forall|k: int| 0 <= k < s.len() implies #[trigger] s[k] != '\n' by {
            if k > 0 {
                assert(s[k] == digits[k - 1]);
            }
        }
    }
}

} // verus!
