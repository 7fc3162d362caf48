//! Characters, decimal numbers and the building of strings.

use vstd::prelude::*;

verus! {

/// The text of each string of a sequence.
pub open spec fn texts(strings: Seq<String>) -> Seq<Seq<char>> {
    Seq::new(strings.len(), |i: int| strings[i]@)
}

/// The characters of a string slice.
pub fn chars_of(s: &str) -> (chars: Vec<char>)
    ensures
        chars@ == s@,
{
    let mut chars: Vec<char> = Vec::new();
    for c in it: s.chars()
        invariant
            it.seq() == s@,
            chars@ == it.seq().take(it.index() as int),
    {
        chars.push(c);
    }
    chars
}

/// Whether `text` begins with `prefix`.
pub fn has_prefix(text: &Vec<char>, prefix: &Vec<char>) -> (found: bool)
    ensures
        found == prefix@.is_prefix_of(text@),
{
    if prefix.len() > text.len() {
        return false;
    }
    let mut k: usize = 0;
    while k < prefix.len()
        invariant
            k <= prefix.len() <= text.len(),
            forall|j: int| 0 <= j < k ==> text[j] == prefix[j],
        decreases prefix.len() - k,
    {
        if text[k] != prefix[k] {
            assert(text@.subrange(0, prefix.len() as int)[k as int] == text[k as int]);
            return false;
        }
        k = k + 1;
    }
    assert(text@.subrange(0, prefix.len() as int) =~= prefix@);
    true
}

/// The ten decimal digits, in order.
pub open spec fn digits() -> Seq<char> {
    seq!['0', '1', '2', '3', '4', '5', '6', '7', '8', '9']
}

/// `c` is a decimal digit.
pub open spec fn is_digit(c: char) -> bool {
    digits().contains(c)
}

/// The value of a decimal digit.
pub open spec fn digit_value(c: char) -> nat {
    digits().index_of(c) as nat
}

/// The number that a sequence of decimal digits writes; 0 for the empty one.
pub open spec fn decimal_value(s: Seq<char>) -> nat
    decreases s.len(),
{
    if s.len() == 0 {
        0
    } else {
        10 * decimal_value(s.drop_last()) + digit_value(s.last())
    }
}

/// Every character of `s` is a decimal digit.
pub open spec fn all_digits(s: Seq<char>) -> bool {
    forall|i: int| 0 <= i < s.len() ==> is_digit(#[trigger] s[i])
}

/// The number that the digits `body` write, where it fits a `usize`: one
/// digit or more, and nothing else.
pub open spec fn parse_digits(body: Seq<char>) -> Option<usize> {
    if body.len() > 0 && all_digits(body) && decimal_value(body) <= usize::MAX {
        Some(decimal_value(body) as usize)
    } else {
        None
    }
}

/// The number that `s` writes in decimal, where it fits a `usize`: an optional
/// `+`, then one digit or more, and nothing else.
pub open spec fn parse_count(s: Seq<char>) -> Option<usize> {
    if s.len() > 0 && s[0] == '+' {
        parse_digits(s.drop_first())
    } else {
        parse_digits(s)
    }
}

/// The value of a character as a decimal digit, if it is one.
pub fn digit_of(c: char) -> (d: Option<usize>)
    ensures
        d is Some <==> is_digit(c),
        d matches Some(v) ==> v == digit_value(c) && v < 10,
{
    let d: Option<usize> = match c {
        '0' => Some(0),
        '1' => Some(1),
        '2' => Some(2),
        '3' => Some(3),
        '4' => Some(4),
        '5' => Some(5),
        '6' => Some(6),
        '7' => Some(7),
        '8' => Some(8),
        '9' => Some(9),
        _ => None,
    };
    proof {
        match d {
            Some(v) => {
                assert(digits()[v as int] == c);
                let w = digits().index_of(c);
                assert(0 <= w < 10 && digits()[w] == c);
            },
            None => {
                if is_digit(c) {
                    let w = choose|w: int| 0 <= w < digits().len() && digits()[w] == c;
                    assert(false);
                }
            },
        }
    }
    d
}

/// A sequence of digits writes no less than any sequence that it begins with.
proof fn lemma_decimal_grows(s: Seq<char>, k: int)
    requires
        0 <= k <= s.len(),
    ensures
        decimal_value(s.take(k)) <= decimal_value(s),
    decreases s.len() - k,
{
    if k < s.len() {
        lemma_decimal_grows(s, k + 1);
        assert(s.take(k + 1).drop_last() =~= s.take(k));
    } else {
        assert(s.take(k) =~= s);
    }
}

/// Reads a count written in decimal from the characters of `text` that
/// follow the first `from`.
pub fn read_count(text: &Vec<char>, from: usize) -> (count: Option<usize>)
    requires
        from <= text.len(),
    ensures
        count == parse_count(text@.skip(from as int)),
{
    let ghost s = text@.skip(from as int);
    let mut start = from;
    if start < text.len() && text[start] == '+' {
        start = start + 1;
    }
    let ghost body = text@.skip(start as int);
    assert(body =~= if s.len() > 0 && s[0] == '+' {
        s.drop_first()
    } else {
        s
    });
    if start == text.len() {
        return None;
    }
    let mut value: usize = 0;
    let mut i = start;
    while i < text.len()
        invariant
            start <= i <= text.len(),
            start < text.len(),
            body == text@.skip(start as int),
            all_digits(body.take(i - start)),
            value == decimal_value(body.take(i - start)),
            parse_count(text@.skip(from as int)) == parse_digits(body),
        decreases text.len() - i,
    {
        let ghost upto = body.take(i - start + 1);
        assert(upto.drop_last() =~= body.take(i - start));
        assert(upto.last() == text[i as int]);
        proof {
            lemma_decimal_grows(body, i - start + 1);
        }
        match digit_of(text[i]) {
            Some(d) => {
                if value > (usize::MAX - d) / 10 {
                    assert(decimal_value(upto) > usize::MAX);
                    assert(parse_digits(body) is None);
                    return None;
                }
                value = value * 10 + d;
            },
            None => {
                assert(!is_digit(body[i - start]));
                assert(parse_digits(body) is None);
                return None;
            },
        }
        assert forall|j: int| 0 <= j < upto.len() implies is_digit(#[trigger] upto[j]) by {
            if j < i - start {
                assert(upto[j] == body.take(i - start)[j]);
            }
        }
        i = i + 1;
    }
    assert(body.take(i - start) =~= body);
    Some(value)
}

/// The digit that writes a number below ten.
pub fn digit_str(d: usize) -> (digit: &'static str)
    requires
        d < 10,
    ensures
        digit@ == seq![digits()[d as int]],
{
    proof {
        reveal_strlit("0");
        reveal_strlit("1");
        reveal_strlit("2");
        reveal_strlit("3");
        reveal_strlit("4");
        reveal_strlit("5");
        reveal_strlit("6");
        reveal_strlit("7");
        reveal_strlit("8");
        reveal_strlit("9");
    }
    let digit = match d {
        0 => "0",
        1 => "1",
        2 => "2",
        3 => "3",
        4 => "4",
        5 => "5",
        6 => "6",
        7 => "7",
        8 => "8",
        _ => "9",
    };
    assert(digit@ =~= seq![digits()[d as int]]);
    digit
}

/// A number written in decimal, without leading zeros.
pub open spec fn decimal(n: nat) -> Seq<char>
    decreases n,
{
    if n < 10 {
        seq![digits()[n as int]]
    } else {
        decimal(n / 10).push(digits()[(n % 10) as int])
    }
}

/// Appends `n`, written in decimal, to a string.
pub fn push_decimal(s: &mut String, n: usize)
    ensures
        final(s)@ == old(s)@ + decimal(n as nat),
    decreases n,
{
    if n >= 10 {
        push_decimal(s, n / 10);
    }
    s.append(digit_str(n % 10));
    assert(s@ =~= old(s)@ + decimal(n as nat));
}

} // verus!
