//! The textual form of an entity handle.
//!
//! A handle crosses the host boundary as the decimal numeral of its 64-bit
//! pattern.  Writing a handle gives the shortest numeral; reading accepts what
//! Rust's own integer parsing accepts: an optional `+`, then one or more ASCII
//! digits whose value fits in 64 bits.

use vstd::prelude::*;
use vstd::string::*;
use vstd::utf8::is_ascii_chars;

verus! {

/// Whether `c` is one of the ten ASCII digits.
pub open spec fn is_digit(c: char) -> bool {
    '0' <= c <= '9'
}

/// The number that the digit `c` stands for.
pub open spec fn digit_value(c: char) -> nat
    recommends
        is_digit(c),
{
    (c as int - '0' as int) as nat
}

/// The character that writes the digit `d`.
pub open spec fn digit_char(d: nat) -> char
    recommends
        d < 10,
{
    (d + 48) as u8 as char
}

/// The shortest decimal numeral of `n`, most significant digit first.
pub open spec fn decimal(n: nat) -> Seq<char>
    decreases n,
{
    if n < 10 {
        seq![digit_char(n)]
    } else {
        decimal(n / 10).push(digit_char(n % 10))
    }
}

/// Whether every character of `s` is a digit.
pub open spec fn all_digits(s: Seq<char>) -> bool {
    forall|i: int| 0 <= i < s.len() ==> is_digit(#[trigger] s[i])
}

/// The number that a string of digits writes in base ten.
pub open spec fn digits_value(s: Seq<char>) -> nat
    decreases s.len(),
{
    if s.len() == 0 {
        0
    } else {
        digits_value(s.drop_last()) * 10 + digit_value(s.last())
    }
}

/// The digits of a numeral: the numeral without its leading `+`, if it has one.
pub open spec fn numeral_digits(s: Seq<char>) -> Seq<char> {
    if s.len() > 0 && s[0] == '+' {
        s.skip(1)
    } else {
        s
    }
}

/// The handle that a numeral denotes, if it is well formed: an optional `+`
/// followed by at least one digit, with a value of at most `u64::MAX`.
pub open spec fn parse_decimal(s: Seq<char>) -> Option<u64> {
    let digits = numeral_digits(s);
    if digits.len() > 0 && all_digits(digits) && digits_value(digits) <= u64::MAX {
        Some(digits_value(digits) as u64)
    } else {
        None
    }
}

/// The one-character string of a digit.
fn digit_str(d: u8) -> (s: &'static str)
    requires
        d < 10,
    ensures
        s@ == seq![digit_char(d as nat)],
{
    proof {
        reveal_strlit("0");
        reveal_strlit("1");
        reveal_strlit("2");
        reveal_strlit("3");
        reveal_strlit("4");
        reveal_strlit("5");
        reveal_strlit("6");
        reveal_strlit("7");
        reveal_strlit("8");
        reveal_strlit("9");
    }
    let s = match d {
        0 => "0",
        1 => "1",
        2 => "2",
        3 => "3",
        4 => "4",
        5 => "5",
        6 => "6",
        7 => "7",
        8 => "8",
        _ => "9",
    };
    assert(s@ =~= seq![digit_char(d as nat)]);
    s
}

/// Appends the decimal numeral of `n` to `out`.
fn push_decimal(out: &mut String, n: u64)
    ensures
        final(out)@ == old(out)@ + decimal(n as nat),
    decreases n,
{
    if n >= 10 {
        push_decimal(out, n / 10);
    }
    out.append(digit_str((n % 10) as u8));
    assert(out@ =~= old(out)@ + decimal(n as nat));
}

/// Writes a handle as its decimal numeral.
pub fn encode_entity_id(bits: u64) -> (id: String)
    ensures
        id@ == decimal(bits as nat),
{
    let mut id = String::new();
    push_decimal(&mut id, bits);
    assert(id@ =~= decimal(bits as nat));
    id
}

/// A prefix of a string of digits is worth no more than the whole string.
proof fn lemma_prefix_value(s: Seq<char>, k: int)
    requires
        0 <= k <= s.len(),
    ensures
        digits_value(s.take(k)) <= digits_value(s),
    decreases s.len(),
{
    if k == s.len() {
        assert(s.take(k) =~= s);
    } else {
        lemma_prefix_value(s.drop_last(), k);
        assert(s.drop_last().take(k) =~= s.take(k));
    }
}

/// Taking one more digit multiplies the value by ten and adds the digit.
proof fn lemma_value_step(s: Seq<char>, k: int)
    requires
        0 <= k < s.len(),
    ensures
        digits_value(s.take(k + 1)) == digits_value(s.take(k)) * 10 + digit_value(s[k]),
{
    assert(s.take(k + 1).drop_last() =~= s.take(k));
}

/// A numeral holds ASCII characters only.
proof fn lemma_numeral_is_ascii(s: Seq<char>)
    requires
        !is_ascii_chars(s),
    ensures
        parse_decimal(s) is None,
{
    let i = choose|i: int| 0 <= i < s.len() && !('\0' <= #[trigger] s[i] <= '\u{7f}');
    let digits = numeral_digits(s);
    if s[0] == '+' {
        assert(digits[i - 1] == s[i]);
    } else {
        assert(digits[i] == s[i]);
    }
}

/// Reads a handle from its decimal numeral; `None` where the text is no
/// numeral or its value does not fit in 64 bits.
pub fn decode_entity_id(id: &str) -> (bits: Option<u64>)
    ensures
        bits == parse_decimal(id@),
{
    if !id.is_ascii() {
        proof {
            lemma_numeral_is_ascii(id@);
        }
        return None;
    }
    let bytes = id.as_bytes();
    proof {
        is_ascii_spec_bytes(id);
    }
    let n = bytes.len();
    let start: usize = if n > 0 && bytes[0] == 43 {
        1
    } else {
        0
    };
    let ghost digits = numeral_digits(id@);
    assert(digits =~= id@.skip(start as int));
    if start == n {
        return None;
    }
    let mut value: u64 = 0;
    let mut i = start;
    while i < n
        invariant
            start <= i <= n,
            n == bytes@.len(),
            n == id@.len(),
            is_ascii_chars(id@),
            forall|j: int| 0 <= j < n ==> bytes@[j] == id@[j] as u8,
            digits == numeral_digits(id@),
            digits == id@.skip(start as int),
            all_digits(digits.take(i - start)),
            value == digits_value(digits.take(i - start)),
        decreases n - i,
    {
        let b = bytes[i];
        let ghost k = i - start;
        assert(digits[k] == id@[i as int]);
        if b < 48 || b > 57 {
            assert(!is_digit(digits[k]));
            return None;
        }
        let d = (b - 48) as u64;
        proof {
            lemma_value_step(digits, k);
        }
        if value > (u64::MAX - d) / 10 {
            proof {
                lemma_prefix_value(digits, k + 1);
            }
            return None;
        }
        value = value * 10 + d;
        i += 1;
        assert forall|j: int| 0 <= j < digits.take(i - start).len() implies is_digit(
            #[trigger] digits.take(i - start)[j],
        ) by {
            if j < k {
                assert(digits.take(i - start)[j] == digits.take(k)[j]);
            }
        }
    }
    assert(digits.take(n - start) =~= digits);
    Some(value)
}

/// The numeral of `n` is a non-empty string of digits that is worth `n`.
proof fn lemma_decimal_digits(n: nat)
    ensures
        decimal(n).len() > 0,
        all_digits(decimal(n)),
        digits_value(decimal(n)) == n,
    decreases n,
{
    if n < 10 {
        assert(decimal(n).drop_last() =~= Seq::<char>::empty());
        assert(digits_value(decimal(n).drop_last()) == 0);
    } else {
        lemma_decimal_digits(n / 10);
        assert(decimal(n).drop_last() =~= decimal(n / 10));
    }
}

/// Reading back what was written gives the handle that was written: for
/// every handle, the numeral that [`encode_entity_id`] produces is one that
/// [`decode_entity_id`] accepts, and it denotes that same handle.
pub proof fn lemma_decode_encode(bits: u64)
    ensures
        parse_decimal(decimal(bits as nat)) == Some(bits),
{
    lemma_decimal_digits(bits as nat);
    let s = decimal(bits as nat);
    assert(is_digit(s[0]));
    assert(numeral_digits(s) == s);
}

} // verus!
