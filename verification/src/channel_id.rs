//! Channel identifiers as persistent storage spells them: decimal text.

use crate::error::Describe;
use vstd::prelude::*;
use vstd::string::StringExecFns;

verus! {

/// Whether `c` is one of `'0'` to `'9'`.
pub open spec fn is_digit(c: char) -> bool {
    '0' <= c <= '9'
}

/// The value of the decimal digit `c`.
pub open spec fn digit_value(c: char) -> nat
    recommends
        is_digit(c),
{
    (c as u32 - '0' as u32) as nat
}

/// The decimal digit that stands for `d`.
pub open spec fn digit_char(d: nat) -> char
    recommends
        d < 10,
{
    (d + 48) as u8 as char
}

/// Whether every character of `s` is a decimal digit.
pub open spec fn all_digits(s: Seq<char>) -> bool {
    forall|i: int| 0 <= i < s.len() ==> is_digit(#[trigger] s[i])
}

/// The number that a sequence of decimal digits denotes, most significant
/// digit first; 0 for no digits.
pub open spec fn digits_value(s: Seq<char>) -> nat
    decreases s.len(),
{
    if s.len() == 0 {
        0
    } else {
        digits_value(s.drop_last()) * 10 + digit_value(s.last())
    }
}

/// The decimal digits of `n`, most significant first, without leading zeros;
/// `0` for zero.
pub open spec fn decimal(n: nat) -> Seq<char>
    decreases n,
{
    if n < 10 {
        seq![digit_char(n)]
    } else {
        decimal(n / 10).push(digit_char(n % 10))
    }
}

/// `s` without one leading `+`, if it has one.
pub open spec fn without_sign(s: Seq<char>) -> Seq<char> {
    if s.len() > 0 && s[0] == '+' {
        s.drop_first()
    } else {
        s
    }
}

/// The identifier that `s` spells: an optional `+`, then one or more decimal
/// digits and nothing else, denoting a number that fits 64 bits.
pub open spec fn parsed(s: Seq<char>) -> Option<u64> {
    let digits = without_sign(s);
    if digits.len() > 0 && all_digits(digits) && digits_value(digits) <= u64::MAX {
        Some(digits_value(digits) as u64)
    } else {
        None
    }
}

/// A text that does not spell a channel identifier.
#[derive(Debug, PartialEq, Eq)]
pub struct ChannelIdError {
    /// The text that was refused.
    pub text: String,
}

impl Describe for ChannelIdError {
    open spec fn text(&self) -> Seq<char> {
        "channel ID cannot be parsed as a u64: "@ + self.text@
    }

    fn describe(&self) -> (words: String) {
        let mut words = String::from_str("channel ID cannot be parsed as a u64: ");
        words.append(self.text.as_str());
        words
    }
}

/// A longer run of digits denotes no less than a run it starts with.
pub proof fn lemma_digits_value_grows(s: Seq<char>, i: int)
    requires
        0 <= i <= s.len(),
    ensures
        digits_value(s.take(i)) <= digits_value(s),
    decreases s.len(),
{
    if i == s.len() {
        assert(s.take(i) =~= s);
    } else {
        assert(s.drop_last().take(i) =~= s.take(i));
        lemma_digits_value_grows(s.drop_last(), i);
    }
}

/// The digits of a number are digits, at least one, and denote the number.
pub proof fn lemma_decimal_denotes(n: nat)
    ensures
        decimal(n).len() > 0,
        all_digits(decimal(n)),
        digits_value(decimal(n)) == n,
        decimal(n)[0] != '+',
    decreases n,
{
    if n < 10 {
        let s = decimal(n);
        assert(s.drop_last() =~= Seq::<char>::empty());
        assert(digits_value(s.drop_last()) == 0);
        assert(digit_value(digit_char(n)) == n);
    } else {
        lemma_decimal_denotes(n / 10);
        let s = decimal(n);
        assert(s.drop_last() =~= decimal(n / 10));
        assert(digit_value(digit_char(n % 10)) == n % 10);
        assert(s[0] == decimal(n / 10)[0]);
    }
}

/// Reading back what was written gives the identifier that was written.
pub proof fn lemma_parse_of_decimal(id: u64)
    ensures
        parsed(decimal(id as nat)) == Some(id),
{
    lemma_decimal_denotes(id as nat);
}

/// `String::push`: the character is appended.
#[verifier::external_body]
fn push_char(s: &mut String, c: char)
    ensures
        final(s)@ == old(s)@.push(c),
{
    s.push(c)
}

/// Writes an identifier as decimal text.
pub fn serialize(channel_id: u64) -> (text: String)
    ensures
        text@ == decimal(channel_id as nat),
{
    let mut low_first: Vec<char> = Vec::new();
    let mut rest: u64 = channel_id;
    while rest >= 10
        invariant
            decimal(channel_id as nat) =~= decimal(rest as nat) + Seq::new(
                low_first@.len(),
                |j: int| low_first@[low_first@.len() - 1 - j],
            ),
        decreases rest,
    {
        let d: u8 = (rest % 10) as u8;
        let ghost before = low_first@;
        low_first.push((d + 48) as char);
        proof {
            let c = digit_char((rest % 10) as nat);
            assert(low_first@[low_first@.len() - 1] == c);
            assert(decimal(rest as nat) == decimal((rest / 10) as nat).push(c));
            let old_tail = Seq::new(before.len(), |j: int| before[before.len() - 1 - j]);
            let new_tail = Seq::new(
                low_first@.len(),
                |j: int| low_first@[low_first@.len() - 1 - j],
            );
            assert(new_tail =~= seq![c] + old_tail);
            assert(decimal(channel_id as nat) =~= decimal((rest / 10) as nat) + new_tail);
        }
        rest = rest / 10;
    }
    let mut text = String::new();
    push_char(&mut text, ((rest as u8) + 48) as char);
    let ghost tail = Seq::new(low_first@.len(), |j: int| low_first@[low_first@.len() - 1 - j]);
    let ghost head = decimal(rest as nat);
    assert(text@ =~= head);
    let mut k: usize = low_first.len();
    while k > 0
        invariant
            k <= low_first@.len(),
            tail == Seq::new(low_first@.len(), |j: int| low_first@[low_first@.len() - 1 - j]),
            text@ == head + tail.take(low_first@.len() - k),
        decreases k,
    {
        k -= 1;
        let ghost before = text@;
        push_char(&mut text, low_first[k]);
        assert(text@ =~= head + tail.take(low_first@.len() - k));
    }
    assert(tail.take(low_first@.len() as int) =~= tail);
    text
}

/// Reads decimal text as a number of 64 bits, as `u64`'s `FromStr` does.
pub fn parse_decimal(s: &str) -> (value: Option<u64>)
    ensures
        value == parsed(s@),
{
    if !s.is_ascii() {
        proof {
            let i = choose|i: int| 0 <= i < s@.len() && !('\0' <= #[trigger] s@[i] <= '\u{7f}');
            let digits = without_sign(s@);
            if digits.len() == s@.len() {
                assert(!is_digit(digits[i]));
            } else {
                assert(i > 0);
                assert(!is_digit(digits[i - 1]));
            }
        }
        return None;
    }
    let n = s.unicode_len();
    if n == 0 {
        return None;
    }
    let start: usize = if s.get_ascii(0) == 43 {
        1
    } else {
        0
    };
    let ghost digits = without_sign(s@);
    assert(digits =~= s@.skip(start as int));
    if start == n {
        return None;
    }
    let mut value: u64 = 0;
    let mut i: usize = start;
    while i < n
        invariant
            s.is_ascii(),
            n == s@.len(),
            start <= i <= n,
            digits == s@.skip(start as int),
            digits == without_sign(s@),
            all_digits(digits.take(i - start)),
            value == digits_value(digits.take(i - start)),
        decreases n - i,
    {
        let b = s.get_ascii(i);
        let ghost c = digits[i - start];
        assert(c == s@[i as int]);
        if b < 48 || b > 57 {
            assert(!is_digit(c));
            return None;
        }
        let d: u64 = (b - 48) as u64;
        assert(is_digit(c) && d == digit_value(c));
        let ghost next = digits.take(i - start + 1);
        proof {
            assert(next.drop_last() =~= digits.take(i - start));
            assert(next.last() == c);
            assert(digits_value(next) == value * 10 + d);
            lemma_digits_value_grows(digits, i - start + 1);
            assert forall|j: int| 0 <= j < next.len() implies is_digit(#[trigger] next[j]) by {
                if j < next.len() - 1 {
                    assert(next[j] == digits.take(i - start)[j]);
                }
            }
        }
        let scaled = match value.checked_mul(10) {
            Some(scaled) => scaled,
            None => {
                return None;
            },
        };
        value = match scaled.checked_add(d) {
            Some(sum) => sum,
            None => {
                return None;
            },
        };
        i += 1;
    }
    assert(digits.take(n - start) =~= digits);
    Some(value)
}

/// Reads an identifier from decimal text, or says in the error which text
/// was refused.
pub fn deserialize(text: &str) -> (read: Result<u64, ChannelIdError>)
    ensures
        match read {
            Ok(id) => parsed(text@) == Some(id),
            Err(e) => parsed(text@) is None && e.text@ == text@,
        },
{
    match parse_decimal(text) {
        Some(id) => Ok(id),
        None => Err(ChannelIdError { text: String::from_str(text) }),
    }
}

} // verus!
