//! Settings of the CPU backend: the number of threads of its execution
//! graph, read from a configuration value.

use vstd::prelude::*;

verus! {

/// The number of threads where none is configured, or where the configured
/// value is no number.
pub const DEFAULT_THREADS: usize = 1;

/// Whether a character is one of the ten decimal digits.
pub open spec fn is_digit(c: char) -> bool {
    0x30 <= c as u32 <= 0x39
}

/// The number that a sequence of decimal digits denotes.
pub open spec fn decimal_value(digits: Seq<char>) -> nat
    decreases digits.len(),
{
    if digits.len() == 0 {
        0
    } else {
        decimal_value(digits.drop_last()) * 10 + (digits.last() as u32 - 0x30) as nat
    }
}

/// The text without the plus sign that may open it.
pub open spec fn unsigned_part(text: Seq<char>) -> Seq<char> {
    if text.len() > 0 && text[0] == '+' {
        text.drop_first()
    } else {
        text
    }
}

/// The thread count that a text denotes: an optional plus sign, then one or
/// more decimal digits and nothing else, of a value that fits the machine's
/// word. Any other text denotes none.
pub open spec fn parsed_count(text: Seq<char>) -> Option<usize> {
    let digits = unsigned_part(text);
    if digits.len() > 0 && (forall|i: int| 0 <= i < digits.len() ==> is_digit(#[trigger] digits[i]))
        && decimal_value(digits) <= usize::MAX {
        Some(decimal_value(digits) as usize)
    } else {
        None
    }
}

/// The thread count of a configuration value: what the value denotes, and
/// `DEFAULT_THREADS` where there is no value or it denotes no count.
pub open spec fn configured_threads(configured: Option<Seq<char>>) -> usize {
    match configured {
        Some(text) => match parsed_count(text) {
            Some(count) => count,
            None => DEFAULT_THREADS,
        },
        None => DEFAULT_THREADS,
    }
}

/// A prefix of a digit sequence denotes no more than the whole.
proof fn lemma_prefix_value(digits: Seq<char>, k: int)
    requires
        0 <= k <= digits.len(),
    ensures
        decimal_value(digits.take(k)) <= decimal_value(digits),
    decreases digits.len(),
{
    if k == digits.len() {
        assert(digits.take(k) =~= digits);
    } else {
        assert(digits.drop_last().take(k) =~= digits.take(k));
        lemma_prefix_value(digits.drop_last(), k);
    }
}

/// Reads a thread count from a text.
pub fn parse_thread_count(text: &str) -> (count: Option<usize>)
    ensures
        count == parsed_count(text@),
{
    let n = text.unicode_len();
    let start: usize = if n > 0 && text.get_char(0) == '+' {
        1
    } else {
        0
    };
    if start == n {
        return None;
    }
    let ghost digits = unsigned_part(text@);
    let mut value: usize = 0;
    let mut i: usize = start;
    while i < n
        invariant
            start <= i <= n,
            start <= 1,
            n == text@.len(),
            digits == unsigned_part(text@),
            digits.len() == n - start,
            forall|j: int| 0 <= j < digits.len() ==> digits[j] == text@[j + start],
            forall|j: int| 0 <= j < i - start ==> is_digit(#[trigger] digits[j]),
            value == decimal_value(digits.take(i - start)),
        decreases n - i,
    {
        let c = text.get_char(i);
        let code = c as u32;
        if code < 0x30 || code > 0x39 {
            proof {
                assert(!is_digit(digits[i - start]));
            }
            return None;
        }
        let digit = (code - 0x30) as usize;
        proof {
            let next = digits.take(i - start + 1);
            assert(next.drop_last() =~= digits.take(i - start));
            assert(next.last() == c);
            lemma_prefix_value(digits, i - start + 1);
        }
        let scaled = match value.checked_mul(10) {
            Some(scaled) => scaled,
            None => {
                return None;
            },
        };
        value = match scaled.checked_add(digit) {
            Some(sum) => sum,
            None => {
                return None;
            },
        };
        i = i + 1;
    }
    proof {
        assert(digits.take(i - start) =~= digits);
    }
    Some(value)
}

/// The number of threads for the execution graph of the CPU backend.
pub fn intra_threads(configured: Option<&str>) -> (threads: usize)
    ensures
        threads == configured_threads(
            match configured {
                Some(text) => Some(text@),
                None => None,
            },
        ),
{
    match configured {
        Some(text) => match parse_thread_count(text) {
            Some(count) => count,
            None => DEFAULT_THREADS,
        },
        None => DEFAULT_THREADS,
    }
}

} // verus!
