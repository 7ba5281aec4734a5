//! Small text operations that the editor needs: building strings a character
//! at a time, writing integers, and naming pitch classes.
use vstd::prelude::*;
use crate::grammar::pitch_class;

verus! {

/// Relies on `String::push`: appends one character.
#[verifier::external_body]
pub(crate) fn push_char(s: &mut String, c: char)
    ensures
        final(s)@ == old(s)@.push(c),
{
    s.push(c)
}

/// Relies on `String::pop`: removes the last character and returns it, or
/// returns `None` on an empty string.
#[verifier::external_body]
pub(crate) fn pop_char(s: &mut String) -> (r: Option<char>)
    ensures
        old(s)@.len() == 0 ==> r is None && final(s)@ == old(s)@,
        old(s)@.len() > 0 ==> r == Some(old(s)@.last()) && final(s)@ == old(s)@.drop_last(),
{
    s.pop()
}

pub open spec fn digit_char(d: int) -> char {
    (d + '0' as int) as char
}

/// The decimal digits of `n`, most significant first, without leading zeros.
pub open spec fn digits_of(n: nat) -> Seq<char>
    decreases n,
{
    if n < 10 {
        seq![digit_char(n as int)]
    } else {
        digits_of(n / 10).push(digit_char((n % 10) as int))
    }
}

/// How `n` is written in decimal: a `-` before a negative number, then its
/// digits.
pub open spec fn decimal_text(n: int) -> Seq<char> {
    if n < 0 {
        seq!['-'] + digits_of((-n) as nat)
    } else {
        digits_of(n as nat)
    }
}

fn push_digits(s: &mut String, n: u64)
    ensures
        final(s)@ == old(s)@ + digits_of(n as nat),
    decreases n,
{
    if n >= 10 {
        push_digits(s, n / 10);
    }
    let c = ((n % 10) as u8 + 48u8) as char;
    assert(c == digit_char((n % 10) as int));
    push_char(s, c);
    assert(s@ =~= old(s)@ + digits_of(n as nat));
}

/// Writes `n` in decimal.
pub fn write_decimal(n: i64) -> (r: String)
    requires
        n > i64::MIN,
    ensures
        r@ == decimal_text(n as int),
{
    let mut s = String::new();
    if n < 0 {
        push_char(&mut s, '-');
        push_digits(&mut s, (-n) as u64);
    } else {
        push_digits(&mut s, n as u64);
    }
    s
}

/// The name of entry `i` of the pitch-class table `C C# D D# E F F# G G# A B`.
pub open spec fn pitch_name(i: int) -> Seq<char> {
    let letter = if i <= 1 {
        'C'
    } else if i <= 3 {
        'D'
    } else if i == 4 {
        'E'
    } else if i <= 6 {
        'F'
    } else if i <= 8 {
        'G'
    } else if i == 9 {
        'A'
    } else {
        'B'
    };
    if i == 1 || i == 3 || i == 6 || i == 8 {
        seq![letter, '#']
    } else {
        seq![letter]
    }
}

/// Number of entries in the pitch-class table.
pub const PITCH_CLASS_COUNT: usize = 11;

/// The name of entry `i` of the pitch-class table.
pub fn pitch_name_text(i: usize) -> (r: String)
    requires
        i < PITCH_CLASS_COUNT,
    ensures
        r@ == pitch_name(i as int),
        pitch_class(r@) == Some(i as int),
{
    let letter = if i <= 1 {
        'C'
    } else if i <= 3 {
        'D'
    } else if i == 4 {
        'E'
    } else if i <= 6 {
        'F'
    } else if i <= 8 {
        'G'
    } else if i == 9 {
        'A'
    } else {
        'B'
    };
    let mut s = String::new();
    push_char(&mut s, letter);
    if i == 1 || i == 3 || i == 6 || i == 8 {
        push_char(&mut s, '#');
    }
    assert(s@ =~= pitch_name(i as int));
    s
}

/// The characters that std's `str::trim` removes: those with the Unicode
/// property White_Space.
pub open spec fn is_white_space(c: char) -> bool {
    ('\u{9}' <= c && c <= '\u{d}') || c == ' ' || c == '\u{85}' || c == '\u{a0}' || c == '\u{1680}'
        || ('\u{2000}' <= c && c <= '\u{200a}') || c == '\u{2028}' || c == '\u{2029}' || c == '\u{202f}'
        || c == '\u{205f}' || c == '\u{3000}'
}

fn white_space(c: char) -> (r: bool)
    ensures
        r == is_white_space(c),
{
    ('\u{9}' <= c && c <= '\u{d}') || c == ' ' || c == '\u{85}' || c == '\u{a0}' || c == '\u{1680}'
        || ('\u{2000}' <= c && c <= '\u{200a}') || c == '\u{2028}' || c == '\u{2029}' || c == '\u{202f}'
        || c == '\u{205f}' || c == '\u{3000}'
}

pub open spec fn all_white_space(s: Seq<char>) -> bool {
    forall|i: int| 0 <= i < s.len() ==> is_white_space(#[trigger] s[i])
}

/// Whether `word` starts at position `i` of `s` after nothing but white space.
pub open spec fn word_at(s: Seq<char>, i: int, word: Seq<char>) -> bool {
    0 <= i && i + word.len() <= s.len() && all_white_space(s.take(i)) && s.subrange(i, i + word.len()) == word
}

/// Whether `s`, with white space trimmed from both ends, is exactly `word`.
pub open spec fn trims_to(s: Seq<char>, word: Seq<char>) -> bool {
    exists|i: int| #[trigger] word_at(s, i, word) && all_white_space(s.skip(i + word.len()))
}

/// Whether `s` reads `:q` once white space is trimmed from both ends.
pub fn is_quit_command(s: &str) -> (r: bool)
    ensures
        r == trims_to(s@, seq![':', 'q']),
{
    let ghost word = seq![':', 'q'];
    let n = s.unicode_len();
    let mut i: usize = 0;
    while i < n && white_space(s.get_char(i))
        invariant
            i <= n,
            n == s@.len(),
            all_white_space(s@.take(i as int)),
        decreases n - i,
    {
        assert(s@.take(i + 1) =~= s@.take(i as int).push(s@[i as int]));
        i = i + 1;
    }
    // `i` is the first character that is not white space, if any
    proof {
        assert forall|j: int| #[trigger] word_at(s@, j, word) implies j == i by {
            assert(s@.subrange(j, j + 2)[0] == s@[j]);
            if j < i {
                assert(s@.take(i as int)[j] == s@[j]);
            } else if j > i {
                assert(s@.take(j)[i as int] == s@[i as int]);
            }
        }
    }
    if n - i < 2 {
        return false;
    }
    if s.get_char(i) != ':' || s.get_char(i + 1) != 'q' {
        proof {
            if trims_to(s@, word) {
                let j = choose|j: int| #[trigger] word_at(s@, j, word) && all_white_space(s@.skip(j + 2));
                assert(s@.subrange(j, j + 2)[0] == s@[j]);
                assert(s@.subrange(j, j + 2)[1] == s@[j + 1]);
            }
        }
        return false;
    }
    proof {
        assert(s@.subrange(i as int, i + 2) =~= word);
        assert(word_at(s@, i as int, word));
    }
    let mut k: usize = i + 2;
    while k < n
        invariant
            i + 2 <= k <= n,
            n == s@.len(),
            word == seq![':', 'q'],
            word_at(s@, i as int, word),
            forall|j: int| #[trigger] word_at(s@, j, word) ==> j == i,
            forall|j: int| i + 2 <= j < k ==> is_white_space(#[trigger] s@[j]),
        decreases n - k,
    {
        if !white_space(s.get_char(k)) {
            proof {
                if trims_to(s@, word) {
                    let j = choose|j: int| #[trigger] word_at(s@, j, word) && all_white_space(s@.skip(j + 2));
                    assert(j == i);
                    assert(s@.skip(j + 2)[k - j - 2] == s@[k as int]);
                }
            }
            return false;
        }
        k = k + 1;
    }
    proof {
        assert forall|j: int| 0 <= j < s@.skip(i + 2).len() implies is_white_space(#[trigger] s@.skip(i + 2)[j]) by {
            assert(s@.skip(i + 2)[j] == s@[i + 2 + j]);
        }
    }
    true
}

} // verus!
