//! Character-level text helpers shared by the transcript renderings:
//! decimal formatting with zero padding, whitespace trimming, and the
//! sanitization of cue separators inside utterance text.
use vstd::prelude::*;

verus! {

/// The character for a single decimal digit.
pub open spec fn digit_char(d: int) -> char
    recommends
        0 <= d < 10,
{
    if d == 0 {
        '0'
    } else if d == 1 {
        '1'
    } else if d == 2 {
        '2'
    } else if d == 3 {
        '3'
    } else if d == 4 {
        '4'
    } else if d == 5 {
        '5'
    } else if d == 6 {
        '6'
    } else if d == 7 {
        '7'
    } else if d == 8 {
        '8'
    } else {
        '9'
    }
}

/// Whether a character is a decimal digit.
pub open spec fn is_digit_char(c: char) -> bool {
    exists|d: int| 0 <= d < 10 && c == digit_char(d)
}

/// The decimal rendering of a non-negative integer, most significant digit
/// first, with no leading zeros (except for zero itself).
pub open spec fn spec_dec(n: int) -> Seq<char>
    recommends
        0 <= n,
    decreases n,
{
    if n < 10 {
        seq![digit_char(n)]
    } else {
        spec_dec(n / 10).push(digit_char(n % 10))
    }
}

/// The decimal rendering of `n`, zero-padded on the left to at least two
/// digits.
pub open spec fn spec_pad2(n: int) -> Seq<char>
    recommends
        0 <= n,
{
    if n < 10 {
        seq!['0'] + spec_dec(n)
    } else {
        spec_dec(n)
    }
}

/// The decimal rendering of `n`, zero-padded on the left to at least three
/// digits.
pub open spec fn spec_pad3(n: int) -> Seq<char>
    recommends
        0 <= n,
{
    if n < 10 {
        seq!['0', '0'] + spec_dec(n)
    } else if n < 100 {
        seq!['0'] + spec_dec(n)
    } else {
        spec_dec(n)
    }
}

/// The one-character string for a single decimal digit.
fn digit_str(d: u64) -> (s: &'static str)
    requires
        d < 10,
    ensures
        s@ =~= seq![digit_char(d as int)],
{
    proof {
        reveal_strlit("0");
        reveal_strlit("1");
        reveal_strlit("2");
        reveal_strlit("3");
        reveal_strlit("4");
        reveal_strlit("5");
        reveal_strlit("6");
        reveal_strlit("7");
        reveal_strlit("8");
        reveal_strlit("9");
    }
    if d == 0 {
        "0"
    } else if d == 1 {
        "1"
    } else if d == 2 {
        "2"
    } else if d == 3 {
        "3"
    } else if d == 4 {
        "4"
    } else if d == 5 {
        "5"
    } else if d == 6 {
        "6"
    } else if d == 7 {
        "7"
    } else if d == 8 {
        "8"
    } else {
        "9"
    }
}

/// Renders `n` in decimal.
pub fn dec_u64(n: u64) -> (s: String)
    ensures
        s@ == spec_dec(n as int),
    decreases n,
{
    if n < 10 {
        String::from_str(digit_str(n))
    } else {
        let q = n / 10;
        let r = n % 10;
        let mut s = dec_u64(q);
        s.append(digit_str(r));
        proof {
            assert(s@ =~= spec_dec(n as int));
        }
        s
    }
}

/// Renders `n` in decimal, zero-padded to at least two digits.
pub fn pad2_u64(n: u64) -> (s: String)
    ensures
        s@ == spec_pad2(n as int),
{
    if n < 10 {
        let mut s = String::from_str("0");
        let d = dec_u64(n);
        s.append(d.as_str());
        proof {
            reveal_strlit("0");
            assert(s@ =~= spec_pad2(n as int));
        }
        s
    } else {
        dec_u64(n)
    }
}

/// Renders `n` in decimal, zero-padded to at least three digits.
pub fn pad3_u64(n: u64) -> (s: String)
    ensures
        s@ == spec_pad3(n as int),
{
    if n < 10 {
        let mut s = String::from_str("00");
        let d = dec_u64(n);
        s.append(d.as_str());
        proof {
            reveal_strlit("00");
            reveal_strlit("0");
            assert("00"@ =~= seq!['0', '0']);
            assert(s@ =~= spec_pad3(n as int));
        }
        s
    } else if n < 100 {
        let mut s = String::from_str("0");
        let d = dec_u64(n);
        s.append(d.as_str());
        proof {
            reveal_strlit("0");
            assert(s@ =~= spec_pad3(n as int));
        }
        s
    } else {
        dec_u64(n)
    }
}

/// The Unicode white-space code points, the set that `str::trim` removes at
/// the ends of a string.
pub open spec fn is_ws_char(c: char) -> bool {
    ||| c == ' '
    ||| c == '\t'
    ||| c == '\n'
    ||| c == '\u{000B}'
    ||| c == '\u{000C}'
    ||| c == '\r'
    ||| c == '\u{0085}'
    ||| c == '\u{00A0}'
    ||| c == '\u{1680}'
    ||| c == '\u{2000}'
    ||| c == '\u{2001}'
    ||| c == '\u{2002}'
    ||| c == '\u{2003}'
    ||| c == '\u{2004}'
    ||| c == '\u{2005}'
    ||| c == '\u{2006}'
    ||| c == '\u{2007}'
    ||| c == '\u{2008}'
    ||| c == '\u{2009}'
    ||| c == '\u{200A}'
    ||| c == '\u{2028}'
    ||| c == '\u{2029}'
    ||| c == '\u{202F}'
    ||| c == '\u{205F}'
    ||| c == '\u{3000}'
}

/// Whether `c` is a Unicode white-space character.
pub fn is_whitespace_char(c: char) -> (b: bool)
    ensures
        b == is_ws_char(c),
{
    c == ' ' || c == '\t' || c == '\n' || c == '\u{000B}' || c == '\u{000C}' || c == '\r' || c
        == '\u{0085}' || c == '\u{00A0}' || c == '\u{1680}' || c == '\u{2000}' || c == '\u{2001}'
        || c == '\u{2002}' || c == '\u{2003}' || c == '\u{2004}' || c == '\u{2005}' || c
        == '\u{2006}' || c == '\u{2007}' || c == '\u{2008}' || c == '\u{2009}' || c == '\u{200A}'
        || c == '\u{2028}' || c == '\u{2029}' || c == '\u{202F}' || c == '\u{205F}' || c
        == '\u{3000}'
}

/// `s` with its leading white space removed.
pub open spec fn trim_start_text(s: Seq<char>) -> Seq<char>
    decreases s.len(),
{
    if s.len() > 0 && is_ws_char(s[0]) {
        trim_start_text(s.skip(1))
    } else {
        s
    }
}

/// `s` with its trailing white space removed.
pub open spec fn trim_end_text(s: Seq<char>) -> Seq<char>
    decreases s.len(),
{
    if s.len() > 0 && is_ws_char(s[s.len() - 1]) {
        trim_end_text(s.take(s.len() - 1))
    } else {
        s
    }
}

/// `s` with white space removed from both ends, as `str::trim` leaves it.
pub open spec fn trim_text(s: Seq<char>) -> Seq<char> {
    trim_end_text(trim_start_text(s))
}

/// Returns `s` with leading and trailing white space removed.
pub fn trim(s: &str) -> (r: &str)
    ensures
        r@ == trim_text(s@),
{
    let n = s.unicode_len();
    let mut a: usize = 0;
    proof {
        assert(s@.skip(0) =~= s@);
    }
    while a < n && is_whitespace_char(s.get_char(a))
        invariant
            n == s@.len(),
            0 <= a <= n,
            trim_start_text(s@) == trim_start_text(s@.skip(a as int)),
        decreases n - a,
    {
        proof {
            assert(s@.skip(a as int).skip(1) =~= s@.skip(a as int + 1));
        }
        a = a + 1;
    }
    proof {
        // Past the scan, nothing further is trimmed from the front.
        assert(trim_start_text(s@) =~= s@.skip(a as int));
    }
    let mut b: usize = n;
    while b > a && is_whitespace_char(s.get_char(b - 1))
        invariant
            n == s@.len(),
            0 <= a <= b <= n,
            trim_end_text(s@.skip(a as int)) == trim_end_text(
                s@.subrange(a as int, b as int),
            ),
            trim_start_text(s@) == s@.skip(a as int),
        decreases b,
    {
        proof {
            assert(s@.subrange(a as int, b as int).take(b - a - 1) =~= s@.subrange(
                a as int,
                b as int - 1,
            ));
        }
        b = b - 1;
    }
    proof {
        assert(trim_end_text(s@.subrange(a as int, b as int)) =~= s@.subrange(a as int, b as int));
    }
    s.substring_char(a, b)
}

/// The sequence that stands for the literal cue separator `-->`.
pub open spec fn arrow_seq() -> Seq<char> {
    seq!['-', '-', '>']
}

/// Whether an occurrence of `-->` starts at position `i` of `s`.
pub open spec fn arrow_at(s: Seq<char>, i: int) -> bool {
    0 <= i && i + 3 <= s.len() && s[i] == '-' && s[i + 1] == '-' && s[i + 2] == '>'
}

/// Whether no occurrence of `-->` appears anywhere in `s`.
pub open spec fn arrow_free(s: Seq<char>) -> bool {
    forall|i: int| !#[trigger] arrow_at(s, i)
}

/// Whether an occurrence of `-->` starts at the front of `s`.
pub open spec fn starts_with_arrow(s: Seq<char>) -> bool {
    arrow_at(s, 0)
}

/// `s` with every occurrence of `-->` replaced by `->`, scanning left to
/// right over non-overlapping occurrences, as `str::replace` does.
pub open spec fn sanitize_text(s: Seq<char>) -> Seq<char>
    decreases s.len(),
{
    if starts_with_arrow(s) {
        seq!['-', '>'] + sanitize_text(s.skip(3))
    } else if s.len() > 0 {
        seq![s[0]] + sanitize_text(s.skip(1))
    } else {
        Seq::<char>::empty()
    }
}

/// Returns `s` with every occurrence of `-->` replaced by `->`.
pub fn sanitize(s: &str) -> (r: String)
    ensures
        r@ == sanitize_text(s@),
{
    let n = s.unicode_len();
    let mut r = String::new();
    let mut i: usize = 0;
    proof {
        assert(s@.skip(0) =~= s@);
        assert(r@ + sanitize_text(s@) =~= sanitize_text(s@));
    }
    while i < n
        invariant
            n == s@.len(),
            0 <= i <= n,
            r@ + sanitize_text(s@.skip(i as int)) == sanitize_text(s@),
        decreases n - i,
    {
        if n - i >= 3 && s.get_char(i) == '-' && s.get_char(i + 1) == '-' && s.get_char(i + 2)
            == '>' {
            r.append("->");
            proof {
                reveal_strlit("->");
                assert("->"@ =~= seq!['-', '>']);
                assert(s@.skip(i as int).skip(3) =~= s@.skip(i as int + 3));
                assert(starts_with_arrow(s@.skip(i as int)));
                assert(r@ + sanitize_text(s@.skip(i as int + 3)) =~= sanitize_text(s@));
            }
            i = i + 3;
        } else {
            let piece = s.substring_char(i, i + 1);
            r.append(piece);
            proof {
                assert(piece@ =~= seq![s@[i as int]]);
                assert(s@.skip(i as int).skip(1) =~= s@.skip(i as int + 1));
                assert(!starts_with_arrow(s@.skip(i as int)));
                assert(r@ + sanitize_text(s@.skip(i as int + 1)) =~= sanitize_text(s@));
            }
            i = i + 1;
        }
    }
    proof {
        assert(s@.skip(n as int) =~= Seq::<char>::empty());
        assert(r@ =~= sanitize_text(s@));
    }
    r
}

/// Text that holds no occurrence of `-->` passes through sanitization
/// unchanged.
pub proof fn lemma_sanitize_unchanged_when_clean(s: Seq<char>)
    requires
        arrow_free(s),
    ensures
        sanitize_text(s) == s,
    decreases s.len(),
{
    if s.len() > 0 {
        assert(!arrow_at(s, 0));
        assert forall|i: int| !#[trigger] arrow_at(s.skip(1), i) by {
            if 0 <= i && i + 3 <= s.skip(1).len() {
                assert(s.skip(1)[i] == s[i + 1]);
                assert(s.skip(1)[i + 1] == s[i + 2]);
                assert(s.skip(1)[i + 2] == s[i + 3]);
                assert(!arrow_at(s, i + 1));
            }
        }
        lemma_sanitize_unchanged_when_clean(s.skip(1));
        assert(seq![s[0]] + s.skip(1) =~= s);
    } else {
        assert(sanitize_text(s) =~= s);
    }
}

/// Sanitization replaces the first occurrence of `-->` with `->` and goes
/// on behind it: on text of the form `a -->` `b` with no occurrence inside
/// `a`, the front is kept, the separator becomes `->`, and the rest is
/// sanitized in turn. Applied repeatedly, every occurrence is replaced.
pub proof fn lemma_sanitize_replaces_arrow(a: Seq<char>, b: Seq<char>)
    requires
        arrow_free(a),
    ensures
        sanitize_text(a + arrow_seq() + b) == a + seq!['-', '>'] + sanitize_text(b),
    decreases a.len(),
{
    let s = a + arrow_seq() + b;
    if a.len() == 0 {
        assert(s =~= arrow_seq() + b);
        assert(arrow_at(s, 0));
        assert(s.skip(3) =~= b);
        assert(sanitize_text(s) =~= a + seq!['-', '>'] + sanitize_text(b));
    } else {
        // No occurrence can start at the front: with fewer than three
        // characters of `a` before the separator, the third character read
        // is a `-` of the separator, never `>`.
        assert(s[0] == a[0]);
        if a.len() >= 3 {
            assert(s[1] == a[1] && s[2] == a[2]);
            assert(!arrow_at(a, 0));
        } else if a.len() == 2 {
            assert(s[2] == arrow_seq()[0]);
        } else {
            assert(s[1] == arrow_seq()[0] && s[2] == arrow_seq()[1]);
        }
        assert(!arrow_at(s, 0));
        assert forall|i: int| !#[trigger] arrow_at(a.skip(1), i) by {
            if 0 <= i && i + 3 <= a.skip(1).len() {
                assert(a.skip(1)[i] == a[i + 1]);
                assert(a.skip(1)[i + 1] == a[i + 2]);
                assert(a.skip(1)[i + 2] == a[i + 3]);
                assert(!arrow_at(a, i + 1));
            }
        }
        lemma_sanitize_replaces_arrow(a.skip(1), b);
        assert(s.skip(1) =~= a.skip(1) + arrow_seq() + b);
        assert(seq![s[0]] + (a.skip(1) + seq!['-', '>'] + sanitize_text(b)) =~= a + seq!['-', '>']
            + sanitize_text(b));
    }
}

/// The decimal rendering of a non-negative integer consists of digits
/// alone; a value below ten renders as one digit, below one hundred as at
/// most two, below one thousand as at most three.
pub proof fn lemma_dec_digits(n: int)
    requires
        0 <= n,
    ensures
        spec_dec(n).len() >= 1,
        forall|j: int| 0 <= j < spec_dec(n).len() ==> is_digit_char(#[trigger] spec_dec(n)[j]),
        n < 10 ==> spec_dec(n).len() == 1,
        10 <= n < 100 ==> spec_dec(n).len() == 2,
        100 <= n < 1000 ==> spec_dec(n).len() == 3,
    decreases n,
{
    if n < 10 {
        assert(is_digit_char(digit_char(n))) by {
            assert(0 <= n < 10 && digit_char(n) == digit_char(n));
        }
    } else {
        lemma_dec_digits(n / 10);
        assert(is_digit_char(digit_char(n % 10))) by {
            assert(0 <= n % 10 < 10 && digit_char(n % 10) == digit_char(n % 10));
        }
    }
}

/// The two-digit padded rendering of a value below one hundred is exactly
/// two digits; the three-digit padded rendering of a value below one
/// thousand is exactly three.
pub proof fn lemma_pad_digits(n: int)
    requires
        0 <= n,
    ensures
        n < 100 ==> spec_pad2(n).len() == 2,
        n < 1000 ==> spec_pad3(n).len() == 3,
        forall|j: int| 0 <= j < spec_pad2(n).len() ==> is_digit_char(#[trigger] spec_pad2(n)[j]),
        forall|j: int| 0 <= j < spec_pad3(n).len() ==> is_digit_char(#[trigger] spec_pad3(n)[j]),
{
    lemma_dec_digits(n);
    assert(is_digit_char('0')) by {
        assert(digit_char(0) == '0');
    }
}

} // verus!
