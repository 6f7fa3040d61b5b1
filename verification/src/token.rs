//! The text of a bot token, as far as it has to be looked at before the
//! token is handed on to be validated.
//!
//! A token has three parts of URL-safe base64 text, set apart by `.`. The
//! middle part stands for a number, most significant byte first, which is
//! read into a signed number of 64 bits: it has to fit 63 bits.

use vstd::prelude::*;
use vstd::utf8::encode_utf8;

verus! {

/// The byte `.`, which sets the parts of a token apart.
pub const DOT: u8 = 46;

/// The byte `=`, which pads base64 text.
pub const PAD: u8 = 61;

/// The byte `A`, the base64 symbol of the value 0.
pub const ZERO: u8 = 65;

/// The number of leading bytes of `text` that are `byte`, where `equal`, or
/// that are not `byte`, where not `equal`.
pub open spec fn run(text: Seq<u8>, byte: u8, equal: bool) -> nat
    decreases text.len(),
{
    if text.len() == 0 || (text[0] == byte) != equal {
        0
    } else {
        1 + run(text.drop_first(), byte, equal)
    }
}

/// `text` without the `=` at its end: the symbols of base64 text.
pub open spec fn symbols(text: Seq<u8>) -> Seq<u8>
    decreases text.len(),
{
    if text.len() > 0 && text.last() == PAD {
        symbols(text.drop_last())
    } else {
        text
    }
}

/// The middle part of a token's text: what stands between its first `.` and
/// its second, or its end where there is no second; nothing where the text
/// has no `.` at all.
pub open spec fn middle_part(text: Seq<u8>) -> Seq<u8> {
    let first = run(text, DOT, false);
    if first < text.len() {
        let rest = text.skip(first as int + 1);
        rest.take(run(rest, DOT, false) as int)
    } else {
        Seq::empty()
    }
}

/// The value of a symbol of the URL-safe base64 alphabet: `A` to `Z` are 0
/// to 25, `a` to `z` are 26 to 51, `0` to `9` are 52 to 61, `-` is 62 and
/// `_` is 63. 64 for a byte that is no symbol.
pub open spec fn symbol_value(byte: u8) -> nat {
    if 65 <= byte <= 90 {
        (byte - 65) as nat
    } else if 97 <= byte <= 122 {
        (byte - 97 + 26) as nat
    } else if 48 <= byte <= 57 {
        (byte - 48 + 52) as nat
    } else if byte == 45 {
        62
    } else if byte == 95 {
        63
    } else {
        64
    }
}

/// How many of the six bits of a symbol's value stand before its first set
/// bit; 0 for the 64 that stands for no symbol.
pub open spec fn zero_bits(value: nat) -> nat {
    if value >= 32 {
        0
    } else if value >= 16 {
        1
    } else if value >= 8 {
        2
    } else if value >= 4 {
        3
    } else if value >= 2 {
        4
    } else if value >= 1 {
        5
    } else {
        6
    }
}

/// How many bits at the end of `n` symbols belong to no whole byte: of the
/// six bits of each symbol, what is left when the bits are taken by eights.
pub open spec fn spare_bits(n: nat) -> nat {
    if n % 4 == 1 {
        6
    } else if n % 4 == 2 {
        4
    } else if n % 4 == 3 {
        2
    } else {
        0
    }
}

/// The number of bits of the number that base64 text stands for, counted
/// from its first set bit to its end: the bits of the whole bytes that the
/// symbols stand for, less the zero bits that lead them. 0 where every
/// symbol is `A`.
pub open spec fn significant_bits(text: Seq<u8>) -> int {
    let digits = symbols(text);
    let zeros = run(digits, ZERO, true);
    if zeros == digits.len() {
        0
    } else {
        6 * (digits.len() - zeros) - spare_bits(digits.len()) - zero_bits(
            symbol_value(digits[zeros as int]),
        )
    }
}

/// Whether the number that the middle part of `token` stands for fits 63
/// bits, so that it can be read into a signed number of 64 bits.
pub open spec fn token_fits(token: Seq<char>) -> bool {
    significant_bits(middle_part(encode_utf8(token))) <= 63
}

/// Where the first `k` bytes of `text` are in the run and the byte at `k`,
/// if there is one, is not, the run has `k` bytes.
pub proof fn lemma_run(text: Seq<u8>, byte: u8, equal: bool, k: int)
    requires
        0 <= k <= text.len(),
        forall|j: int| 0 <= j < k ==> (text[j] == byte) == equal,
        k == text.len() || (text[k] == byte) != equal,
    ensures
        run(text, byte, equal) == k,
    decreases k,
{
    if k > 0 {
        let rest = text.drop_first();
        assert forall|j: int| 0 <= j < k - 1 implies (rest[j] == byte) == equal by {
            assert(rest[j] == text[j + 1]);
        }
        lemma_run(rest, byte, equal, k - 1);
    }
}

/// Where every byte of `text` from `k` on is `=` and the byte before `k`,
/// if there is one, is not, the symbols of `text` are its first `k` bytes.
pub proof fn lemma_symbols(text: Seq<u8>, k: int)
    requires
        0 <= k <= text.len(),
        forall|j: int| k <= j < text.len() ==> text[j] == PAD,
        k == 0 || text[k - 1] != PAD,
    ensures
        symbols(text) == text.take(k),
    decreases text.len() - k,
{
    if k < text.len() {
        let rest = text.drop_last();
        lemma_symbols(rest, k);
        assert(rest.take(k) =~= text.take(k));
    } else {
        assert(text.take(k) =~= text);
    }
}

/// The end of the run that starts at `from` and ends before `to`: the index
/// of the first byte from `from` on that is not in the run, or `to`.
pub fn run_end(text: &[u8], from: usize, to: usize, byte: u8, equal: bool) -> (at: usize)
    requires
        from <= to <= text@.len(),
    ensures
        from <= at <= to,
        at - from == run(text@.subrange(from as int, to as int), byte, equal),
{
    let mut at: usize = from;
    while at < to && (text[at] == byte) == equal
        invariant
            from <= at <= to <= text@.len(),
            forall|j: int| from <= j < at ==> (text@[j] == byte) == equal,
        decreases to - at,
    {
        at += 1;
    }
    proof {
        let part = text@.subrange(from as int, to as int);
        assert forall|j: int| 0 <= j < at - from implies (part[j] == byte) == equal by {
            assert(part[j] == text@[from + j]);
        }
        lemma_run(part, byte, equal, at - from);
    }
    at
}

/// The end of the symbols of the text from `from` to `to`: the index after
/// its last byte that is not `=`, or `from`.
pub fn symbols_end(text: &[u8], from: usize, to: usize) -> (end: usize)
    requires
        from <= to <= text@.len(),
    ensures
        from <= end <= to,
        symbols(text@.subrange(from as int, to as int)) == text@.subrange(
            from as int,
            end as int,
        ),
{
    let mut end: usize = to;
    while end > from && text[end - 1] == PAD
        invariant
            from <= end <= to <= text@.len(),
            forall|j: int| end <= j < to ==> text@[j] == PAD,
        decreases end,
    {
        end -= 1;
    }
    proof {
        let part = text@.subrange(from as int, to as int);
        assert forall|j: int| end - from <= j < part.len() implies part[j] == PAD by {
            assert(part[j] == text@[from + j]);
        }
        lemma_symbols(part, end - from);
        assert(part.take(end - from) =~= text@.subrange(from as int, end as int));
    }
    end
}

/// How many of the six bits of the symbol `byte` stand before its first
/// set bit; 0 where `byte` is no symbol.
pub fn symbol_zero_bits(byte: u8) -> (bits: usize)
    ensures
        bits == zero_bits(symbol_value(byte)),
{
    let value: u8 = if 65 <= byte && byte <= 90 {
        byte - 65
    } else if 97 <= byte && byte <= 122 {
        byte - 97 + 26
    } else if 48 <= byte && byte <= 57 {
        byte - 48 + 52
    } else if byte == 45 {
        62
    } else if byte == 95 {
        63
    } else {
        64
    };
    if value >= 32 {
        0
    } else if value >= 16 {
        1
    } else if value >= 8 {
        2
    } else if value >= 4 {
        3
    } else if value >= 2 {
        4
    } else if value >= 1 {
        5
    } else {
        6
    }
}

/// Whether the number that the middle part of `token` stands for fits 63
/// bits.
pub fn middle_part_fits(token: &str) -> (fits: bool)
    ensures
        fits == token_fits(token@),
{
    let text = token.as_bytes();
    let length = text.len();
    let first = run_end(text, 0, length, DOT, false);
    assert(text@.subrange(0, length as int) =~= text@);
    if first == length {
        assert(symbols(Seq::<u8>::empty()) =~= Seq::<u8>::empty());
        return true;
    }
    let start = first + 1;
    let second = run_end(text, start, length, DOT, false);
    let end = symbols_end(text, start, second);
    let zeros_end = run_end(text, start, end, ZERO, true);
    proof {
        let rest = text@.skip(start as int);
        assert(rest =~= text@.subrange(start as int, length as int));
        assert(rest.take(second - start) =~= text@.subrange(start as int, second as int));
        assert(middle_part(text@) == text@.subrange(start as int, second as int));
    }
    if zeros_end == end {
        return true;
    }
    assert(text@.subrange(start as int, end as int)[zeros_end - start] == text@[zeros_end as int]);
    let digits = end - zeros_end;
    if digits > 12 {
        return false;
    }
    let spare: usize = match (end - start) % 4 {
        1 => 6,
        2 => 4,
        3 => 2,
        _ => 0,
    };
    6 * digits <= 63 + spare + symbol_zero_bits(text[zeros_end])
}

} // verus!
