//! Character and string helpers shared by the grammar and target-resolution code.
//!
//! Text is modelled as `Seq<char>`; executable code works on `Vec<char>` and converts
//! to and from `String` at the edges.
use vstd::prelude::*;

verus! {

// ---------------------------------------------------------------------------
// Character classes
// ---------------------------------------------------------------------------

/// An ASCII upper-case letter.
pub open spec fn is_ascii_upper(c: char) -> bool {
    'A' <= c && c <= 'Z'
}

/// An ASCII character (code point below 128).
pub open spec fn is_ascii_char(c: char) -> bool {
    (c as u32) < 128
}

/// Every character of the text is ASCII.
pub open spec fn all_ascii(s: Seq<char>) -> bool {
    forall|i: int| 0 <= i < s.len() ==> is_ascii_char(#[trigger] s[i])
}

/// The ASCII lower-case form of a character; every other character is left alone.
pub open spec fn ascii_lower(c: char) -> char {
    if is_ascii_upper(c) {
        ((c as u32) + 32) as char
    } else {
        c
    }
}

/// An ASCII lower-case letter.
pub open spec fn is_ascii_lower(c: char) -> bool {
    'a' <= c && c <= 'z'
}

/// An ASCII digit.
pub open spec fn is_ascii_digit(c: char) -> bool {
    '0' <= c && c <= '9'
}

/// The ASCII upper-case form of a character; every other character is left alone.
pub open spec fn ascii_upper(c: char) -> char {
    if is_ascii_lower(c) {
        ((c as u32) - 32) as char
    } else {
        c
    }
}

/// The text with every ASCII upper-case letter lowered.
pub open spec fn ascii_lower_seq(s: Seq<char>) -> Seq<char> {
    s.map_values(|c: char| ascii_lower(c))
}

/// Two texts are equal when ASCII letters are compared without regard to case.
pub open spec fn eq_ignore_ascii_case(a: Seq<char>, b: Seq<char>) -> bool {
    &&& a.len() == b.len()
    &&& forall|i: int| 0 <= i < a.len() ==> ascii_lower(#[trigger] a[i]) == ascii_lower(b[i])
}

/// The characters that Unicode gives the `White_Space` property (what `char::is_whitespace` tests).
pub open spec fn is_white(c: char) -> bool {
    ||| c == ' '
    ||| ('\t' <= c && c <= '\r')
    ||| c == '\u{85}'
    ||| c == '\u{A0}'
    ||| c == '\u{1680}'
    ||| ('\u{2000}' <= c && c <= '\u{200A}')
    ||| c == '\u{2028}'
    ||| c == '\u{2029}'
    ||| c == '\u{202F}'
    ||| c == '\u{205F}'
    ||| c == '\u{3000}'
}

/// Lower-cases one character the way `char::to_ascii_lowercase` does.
pub fn char_ascii_lower(c: char) -> (r: char)
    ensures
        r == ascii_lower(c),
{
    if 'A' <= c && c <= 'Z' {
        let b: u8 = (c as u8) + 32;
        b as char
    } else {
        c
    }
}

/// Tests a character for the Unicode `White_Space` property, as `char::is_whitespace` does.
pub fn char_is_white(c: char) -> (r: bool)
    ensures
        r == is_white(c),
{
    c == ' ' || ('\t' <= c && c <= '\r') || c == '\u{85}' || c == '\u{A0}' || c == '\u{1680}'
        || ('\u{2000}' <= c && c <= '\u{200A}') || c == '\u{2028}' || c == '\u{2029}' || c
        == '\u{202F}' || c == '\u{205F}' || c == '\u{3000}'
}

// ---------------------------------------------------------------------------
// Unicode case mapping (std)
// ---------------------------------------------------------------------------

/// What `str::to_lowercase` returns for a text.
pub uninterp spec fn unicode_lowercase(s: Seq<char>) -> Seq<char>;

/// What `char::to_lowercase` yields for one character.
pub uninterp spec fn char_lowercase(c: char) -> Seq<char>;

/// What `char::to_uppercase` yields for one character.
pub uninterp spec fn char_uppercase(c: char) -> Seq<char>;

/// Whether `char::is_lowercase` holds of a character.
pub uninterp spec fn char_has_lowercase_property(c: char) -> bool;

/// Whether `char::is_uppercase` holds of a character.
pub uninterp spec fn char_has_uppercase_property(c: char) -> bool;

/// Whether `char::is_alphabetic` holds of a character.
pub uninterp spec fn char_has_alphabetic_property(c: char) -> bool;

/// Whether `char::is_alphanumeric` holds of a character.
pub uninterp spec fn char_has_alphanumeric_property(c: char) -> bool;

/// Calls `char::is_alphabetic` (the Unicode `Alphabetic` property).
#[verifier::external_body]
pub fn char_is_alphabetic(c: char) -> (r: bool)
    ensures
        r == char_has_alphabetic_property(c),
        is_ascii_char(c) ==> r == (is_ascii_upper(c) || is_ascii_lower(c)),
{
    c.is_alphabetic()
}

/// Calls `char::is_alphanumeric` (`Alphabetic` or `Numeric`).
#[verifier::external_body]
pub fn char_is_alphanumeric(c: char) -> (r: bool)
    ensures
        r == char_has_alphanumeric_property(c),
        is_ascii_char(c) ==> r == (is_ascii_upper(c) || is_ascii_lower(c) || is_ascii_digit(c)),
{
    c.is_alphanumeric()
}

/// Whether a code point is a Unicode scalar value (a valid `char`).
pub open spec fn is_scalar_value(code: u32) -> bool {
    code < 0xD800 || (0xE000 <= code && code <= 0x10FFFF)
}

/// Calls `char::from_u32`: the character with a code point, if it is a scalar value.
#[verifier::external_body]
pub fn char_from_u32(code: u32) -> (r: Option<char>)
    ensures
        match r {
            Some(c) => is_scalar_value(code) && c == code as char,
            None => !is_scalar_value(code),
        },
{
    char::from_u32(code)
}

/// Calls `str::to_lowercase`; the result is the Unicode lower-case mapping of the text,
/// named `unicode_lowercase` here. Unicode lowers the ASCII letters to their ASCII
/// lower-case forms and leaves the other ASCII characters alone.
#[verifier::external_body]
pub fn str_to_lowercase(s: &str) -> (r: String)
    ensures
        r@ == unicode_lowercase(s@),
        all_ascii(s@) ==> r@ == ascii_lower_seq(s@),
{
    s.to_lowercase()
}

/// Calls `char::to_lowercase` and collects the characters it yields.
#[verifier::external_body]
pub fn char_to_lowercase(c: char) -> (r: Vec<char>)
    ensures
        r@ == char_lowercase(c),
        is_ascii_char(c) ==> r@ == seq![ascii_lower(c)],
{
    c.to_lowercase().collect()
}

/// Calls `char::to_uppercase` and collects the characters it yields.
#[verifier::external_body]
pub fn char_to_uppercase(c: char) -> (r: Vec<char>)
    ensures
        r@ == char_uppercase(c),
        is_ascii_char(c) ==> r@ == seq![ascii_upper(c)],
{
    c.to_uppercase().collect()
}

/// Calls `char::is_lowercase`.
#[verifier::external_body]
pub fn char_is_lowercase(c: char) -> (r: bool)
    ensures
        r == char_has_lowercase_property(c),
        is_ascii_char(c) ==> r == is_ascii_lower(c),
{
    c.is_lowercase()
}

/// Calls `char::is_uppercase`.
#[verifier::external_body]
pub fn char_is_uppercase(c: char) -> (r: bool)
    ensures
        r == char_has_uppercase_property(c),
        is_ascii_char(c) ==> r == is_ascii_upper(c),
{
    c.is_uppercase()
}

/// Calls `String::push`, which appends one character.
#[verifier::external_body]
pub fn string_push(s: &mut String, c: char)
    ensures
        final(s)@ == old(s)@.push(c),
{
    s.push(c);
}

fn digit_of(d: usize) -> (c: char)
    requires
        d < 10,
    ensures
        c == digit_char(d as nat),
{
    if d == 0 { '0' }
    else if d == 1 { '1' }
    else if d == 2 { '2' }
    else if d == 3 { '3' }
    else if d == 4 { '4' }
    else if d == 5 { '5' }
    else if d == 6 { '6' }
    else if d == 7 { '7' }
    else if d == 8 { '8' }
    else { '9' }
}

fn decimal_chars(n: usize) -> (r: Vec<char>)
    ensures
        r@ == decimal(n as nat),
    decreases n,
{
    if n < 10 {
        vec![digit_of(n)]
    } else {
        let mut r = decimal_chars(n / 10);
        r.push(digit_of(n % 10));
        r
    }
}

/// The decimal digits of a number, as `usize::to_string` writes them.
pub fn usize_to_string(n: usize) -> (r: String)
    ensures
        r@ == decimal(n as nat),
{
    string_of(&decimal_chars(n))
}

/// The decimal digits of a number, most significant first, without leading zeros.
pub open spec fn decimal(n: nat) -> Seq<char>
    decreases n,
{
    if n < 10 {
        seq![digit_char(n)]
    } else {
        decimal(n / 10).push(digit_char(n % 10))
    }
}

/// The character of one decimal digit.
pub open spec fn digit_char(d: nat) -> char {
    if d == 0 { '0' }
    else if d == 1 { '1' }
    else if d == 2 { '2' }
    else if d == 3 { '3' }
    else if d == 4 { '4' }
    else if d == 5 { '5' }
    else if d == 6 { '6' }
    else if d == 7 { '7' }
    else if d == 8 { '8' }
    else { '9' }
}

// ---------------------------------------------------------------------------
// Conversions
// ---------------------------------------------------------------------------

/// The characters of a string slice.
pub fn chars_of(s: &str) -> (v: Vec<char>)
    ensures
        v@ == s@,
{
    let n = s.unicode_len();
    let mut v: Vec<char> = Vec::new();
    let mut i: usize = 0;
    while i < n
        invariant
            n == s@.len(),
            i <= n,
            v@ == s@.take(i as int),
        decreases n - i,
    {
        let c = s.get_char(i);
        v.push(c);
        i = i + 1;
        assert(v@ =~= s@.take(i as int));
    }
    assert(s@.take(n as int) =~= s@);
    v
}

/// Builds a `String` from characters.
pub fn string_of(v: &Vec<char>) -> (s: String)
    ensures
        s@ == v@,
{
    let mut s = String::new();
    let mut i: usize = 0;
    while i < v.len()
        invariant
            i <= v.len(),
            s@ == v@.take(i as int),
        decreases v.len() - i,
    {
        string_push(&mut s, v[i]);
        i = i + 1;
        assert(s@ =~= v@.take(i as int));
    }
    assert(v@.take(v.len() as int) =~= v@);
    s
}

/// Copies `v[lo..hi]`.
pub fn subrange_of(v: &Vec<char>, lo: usize, hi: usize) -> (r: Vec<char>)
    requires
        lo <= hi <= v.len(),
    ensures
        r@ == v@.subrange(lo as int, hi as int),
{
    let mut r: Vec<char> = Vec::new();
    let mut i: usize = lo;
    while i < hi
        invariant
            lo <= i <= hi <= v.len(),
            r@ == v@.subrange(lo as int, i as int),
        decreases hi - i,
    {
        r.push(v[i]);
        i = i + 1;
        assert(r@ =~= v@.subrange(lo as int, i as int));
    }
    r
}

/// Appends the characters of `b` to `a`.
pub fn append_chars(a: &mut Vec<char>, b: &Vec<char>)
    ensures
        final(a)@ == old(a)@ + b@,
{
    let ghost a0 = a@;
    let mut i: usize = 0;
    while i < b.len()
        invariant
            i <= b.len(),
            a@ == a0 + b@.take(i as int),
        decreases b.len() - i,
    {
        a.push(b[i]);
        i = i + 1;
        assert(a@ =~= a0 + b@.take(i as int));
    }
    assert(b@.take(b.len() as int) =~= b@);
}

/// Appends the characters of a string slice to `a`.
pub fn append_str(a: &mut Vec<char>, s: &str)
    ensures
        final(a)@ == old(a)@ + s@,
{
    let b = chars_of(s);
    append_chars(a, &b);
}

// ---------------------------------------------------------------------------
// Comparisons
// ---------------------------------------------------------------------------

/// Whether two character sequences are equal.
pub fn chars_eq(a: &Vec<char>, b: &Vec<char>) -> (r: bool)
    ensures
        r == (a@ == b@),
{
    if a.len() != b.len() {
        return false;
    }
    let mut i: usize = 0;
    while i < a.len()
        invariant
            a.len() == b.len(),
            i <= a.len(),
            forall|j: int| 0 <= j < i ==> a@[j] == b@[j],
        decreases a.len() - i,
    {
        if a[i] != b[i] {
            return false;
        }
        i = i + 1;
    }
    assert(a@ =~= b@);
    true
}

/// Whether two string slices hold the same text.
pub fn str_eq(a: &str, b: &str) -> (r: bool)
    ensures
        r == (a@ == b@),
{
    let x = chars_of(a);
    let y = chars_of(b);
    chars_eq(&x, &y)
}

/// Whether two character sequences are equal up to ASCII case, as `str::eq_ignore_ascii_case`.
pub fn chars_eq_ignore_ascii_case(a: &Vec<char>, b: &Vec<char>) -> (r: bool)
    ensures
        r == eq_ignore_ascii_case(a@, b@),
{
    if a.len() != b.len() {
        return false;
    }
    let mut i: usize = 0;
    while i < a.len()
        invariant
            a.len() == b.len(),
            i <= a.len(),
            forall|j: int| 0 <= j < i ==> ascii_lower(#[trigger] a@[j]) == ascii_lower(b@[j]),
        decreases a.len() - i,
    {
        if char_ascii_lower(a[i]) != char_ascii_lower(b[i]) {
            return false;
        }
        i = i + 1;
    }
    true
}

/// Whether a string slice equals `b` up to ASCII case.
pub fn str_eq_ignore_ascii_case(a: &str, b: &str) -> (r: bool)
    ensures
        r == eq_ignore_ascii_case(a@, b@),
{
    let x = chars_of(a);
    let y = chars_of(b);
    chars_eq_ignore_ascii_case(&x, &y)
}

/// `p` is a prefix of `s`.
pub open spec fn starts_with(s: Seq<char>, p: Seq<char>) -> bool {
    p.len() <= s.len() && s.take(p.len() as int) == p
}

/// `p` is a suffix of `s`.
pub open spec fn ends_with(s: Seq<char>, p: Seq<char>) -> bool {
    p.len() <= s.len() && s.skip(s.len() - p.len()) == p
}

/// Whether `p` is a prefix of `s`.
pub fn chars_starts_with(s: &Vec<char>, p: &Vec<char>) -> (r: bool)
    ensures
        r == starts_with(s@, p@),
{
    if p.len() > s.len() {
        return false;
    }
    let mut i: usize = 0;
    while i < p.len()
        invariant
            p.len() <= s.len(),
            i <= p.len(),
            forall|j: int| 0 <= j < i ==> s@[j] == p@[j],
        decreases p.len() - i,
    {
        if s[i] != p[i] {
            assert(s@.take(p.len() as int)[i as int] != p@[i as int]);
            return false;
        }
        i = i + 1;
    }
    assert(s@.take(p.len() as int) =~= p@);
    true
}

/// Whether `p` is a suffix of `s`.
pub fn chars_ends_with(s: &Vec<char>, p: &Vec<char>) -> (r: bool)
    ensures
        r == ends_with(s@, p@),
{
    if p.len() > s.len() {
        return false;
    }
    let off = s.len() - p.len();
    let mut i: usize = 0;
    while i < p.len()
        invariant
            p.len() <= s.len(),
            off == s.len() - p.len(),
            i <= p.len(),
            forall|j: int| 0 <= j < i ==> s@[off + j] == p@[j],
        decreases p.len() - i,
    {
        if s[off + i] != p[i] {
            assert(s@.skip(off as int)[i as int] != p@[i as int]);
            return false;
        }
        i = i + 1;
    }
    assert(s@.skip(off as int) =~= p@);
    true
}

/// Whether the text begins with the characters of the string slice `p`.
pub fn chars_starts_with_str(s: &Vec<char>, p: &str) -> (r: bool)
    ensures
        r == starts_with(s@, p@),
{
    let pv = chars_of(p);
    chars_starts_with(s, &pv)
}

/// Whether the text ends with the characters of the string slice `p`.
pub fn chars_ends_with_str(s: &Vec<char>, p: &str) -> (r: bool)
    ensures
        r == ends_with(s@, p@),
{
    let pv = chars_of(p);
    chars_ends_with(s, &pv)
}

// ---------------------------------------------------------------------------
// Trimming and splitting
// ---------------------------------------------------------------------------

/// The text without its leading white space.
pub open spec fn trim_start(s: Seq<char>) -> Seq<char>
    decreases s.len(),
{
    if s.len() > 0 && is_white(s[0]) {
        trim_start(s.drop_first())
    } else {
        s
    }
}

/// The text without its trailing white space.
pub open spec fn trim_end(s: Seq<char>) -> Seq<char>
    decreases s.len(),
{
    if s.len() > 0 && is_white(s.last()) {
        trim_end(s.drop_last())
    } else {
        s
    }
}

/// The text without leading or trailing white space, as `str::trim`.
pub open spec fn trim(s: Seq<char>) -> Seq<char> {
    trim_end(trim_start(s))
}

/// The number of leading characters that `trim_start` removes.
pub fn leading_white(s: &Vec<char>, from: usize) -> (n: usize)
    requires
        from <= s.len(),
    ensures
        from <= n <= s.len(),
        trim_start(s@.subrange(from as int, s.len() as int)) == s@.subrange(
            n as int,
            s.len() as int,
        ),
{
    let mut i = from;
    while i < s.len() && char_is_white(s[i])
        invariant
            from <= i <= s.len(),
            trim_start(s@.subrange(from as int, s.len() as int)) == trim_start(
                s@.subrange(i as int, s.len() as int),
            ),
        decreases s.len() - i,
    {
        assert(s@.subrange(i as int, s.len() as int).drop_first() =~= s@.subrange(
            i + 1,
            s.len() as int,
        ));
        i = i + 1;
    }
    i
}

/// The end index of `s[lo..hi]` once trailing white space is dropped.
pub fn trailing_white_end(s: &Vec<char>, lo: usize, hi: usize) -> (n: usize)
    requires
        lo <= hi <= s.len(),
    ensures
        lo <= n <= hi,
        trim_end(s@.subrange(lo as int, hi as int)) == s@.subrange(lo as int, n as int),
{
    let mut j = hi;
    while j > lo && char_is_white(s[j - 1])
        invariant
            lo <= j <= hi <= s.len(),
            trim_end(s@.subrange(lo as int, hi as int)) == trim_end(
                s@.subrange(lo as int, j as int),
            ),
        decreases j - lo,
    {
        assert(s@.subrange(lo as int, j as int).drop_last() =~= s@.subrange(
            lo as int,
            j - 1,
        ));
        j = j - 1;
    }
    j
}

/// Removes leading and trailing white space.
pub fn chars_trim(s: &Vec<char>) -> (r: Vec<char>)
    ensures
        r@ == trim(s@),
{
    let lo = leading_white(s, 0);
    assert(s@.subrange(0, s.len() as int) =~= s@);
    let hi = trailing_white_end(s, lo, s.len());
    subrange_of(s, lo, hi)
}

/// Removes leading white space.
pub fn chars_trim_start(s: &Vec<char>) -> (r: Vec<char>)
    ensures
        r@ == trim_start(s@),
{
    let lo = leading_white(s, 0);
    assert(s@.subrange(0, s.len() as int) =~= s@);
    subrange_of(s, lo, s.len())
}

/// Removes trailing white space.
pub fn chars_trim_end(s: &Vec<char>) -> (r: Vec<char>)
    ensures
        r@ == trim_end(s@),
{
    let hi = trailing_white_end(s, 0, s.len());
    assert(s@.subrange(0, s.len() as int) =~= s@);
    subrange_of(s, 0, hi)
}

/// The length of the leading run of characters that are not white space.
pub open spec fn word_len(s: Seq<char>) -> nat
    decreases s.len(),
{
    if s.len() == 0 || is_white(s[0]) {
        0
    } else {
        1 + word_len(s.drop_first())
    }
}

/// The words of a text: the maximal runs of non-white characters, as `str::split_whitespace`.
pub open spec fn words(s: Seq<char>) -> Seq<Seq<char>>
    decreases s.len(),
{
    if s.len() == 0 {
        seq![]
    } else if is_white(s[0]) {
        words(s.drop_first())
    } else {
        let n = word_len(s);
        if n < s.len() {
            seq![s.take(n as int)] + words(s.skip(n as int))
        } else {
            seq![s]
        }
    }
}

proof fn lemma_word_len_bound(s: Seq<char>)
    ensures
        word_len(s) <= s.len(),
        s.len() > 0 && !is_white(s[0]) ==> word_len(s) > 0,
    decreases s.len(),
{
    if s.len() > 0 && !is_white(s[0]) {
        lemma_word_len_bound(s.drop_first());
    }
}

/// The length of the run of non-white characters of `s` starting at `i`.
fn word_end(s: &Vec<char>, i: usize) -> (j: usize)
    requires
        i <= s.len(),
    ensures
        i <= j <= s.len(),
        j - i == word_len(s@.subrange(i as int, s.len() as int)),
{
    let mut j = i;
    while j < s.len() && !char_is_white(s[j])
        invariant
            i <= j <= s.len(),
            word_len(s@.subrange(i as int, s.len() as int)) == (j - i) + word_len(
                s@.subrange(j as int, s.len() as int),
            ),
        decreases s.len() - j,
    {
        assert(s@.subrange(j as int, s.len() as int).drop_first() =~= s@.subrange(
            j + 1,
            s.len() as int,
        ));
        j = j + 1;
    }
    j
}

/// Splits a text into its words.
pub fn split_words(s: &Vec<char>) -> (r: Vec<Vec<char>>)
    ensures
        r@.map_values(|w: Vec<char>| w@) == words(s@),
{
    let mut r: Vec<Vec<char>> = Vec::new();
    let mut i: usize = 0;
    assert(s@.subrange(0, s.len() as int) =~= s@);
    while i < s.len()
        invariant
            i <= s.len(),
            r@.map_values(|w: Vec<char>| w@) + words(s@.subrange(i as int, s.len() as int))
                == words(s@),
        decreases s.len() - i,
    {
        let ghost rest = s@.subrange(i as int, s.len() as int);
        if char_is_white(s[i]) {
            assert(rest.drop_first() =~= s@.subrange(i + 1, s.len() as int));
            i = i + 1;
        } else {
            let j = word_end(s, i);
            proof {
                lemma_word_len_bound(rest);
            }
            let w = subrange_of(s, i, j);
            let ghost old_r = r@.map_values(|w: Vec<char>| w@);
            r.push(w);
            assert(r@.map_values(|w: Vec<char>| w@) =~= old_r.push(w@));
            if j < s.len() {
                assert(rest.take((j - i) as int) =~= w@);
                assert(rest.skip((j - i) as int) =~= s@.subrange(j as int, s.len() as int));
                assert(old_r.push(w@) + words(s@.subrange(j as int, s.len() as int)) =~= old_r
                    + (seq![w@] + words(s@.subrange(j as int, s.len() as int))));
            } else {
                assert(rest =~= w@);
                assert(s@.subrange(j as int, s.len() as int) =~= Seq::<char>::empty());
                assert(old_r.push(w@) =~= old_r + seq![w@]);
            }
            i = j;
        }
    }
    assert(s@.subrange(i as int, s.len() as int) =~= Seq::<char>::empty());
    assert(r@.map_values(|w: Vec<char>| w@) =~= r@.map_values(|w: Vec<char>| w@) + words(
        Seq::<char>::empty(),
    ));
    r
}

/// The first index at or after `i` where `p` occurs in `s`, if any.
pub open spec fn find_from(s: Seq<char>, p: Seq<char>, i: int) -> Option<int>
    decreases s.len() + 1 - i,
{
    if i < 0 || i + p.len() > s.len() {
        None
    } else if s.subrange(i, i + p.len()) == p {
        Some(i)
    } else {
        find_from(s, p, i + 1)
    }
}

/// The index of the first occurrence of `p` in `s`, as `str::find`.
pub open spec fn find(s: Seq<char>, p: Seq<char>) -> Option<int> {
    find_from(s, p, 0)
}

/// A match found by `find_from` lies within the text, at or after the start.
pub proof fn lemma_find_bounds(s: Seq<char>, p: Seq<char>, i: int)
    ensures
        find_from(s, p, i) matches Some(k) ==> i <= k && k + p.len() <= s.len() && s.subrange(
            k,
            k + p.len(),
        ) == p,
    decreases s.len() + 1 - i,
{
    if i >= 0 && i + p.len() <= s.len() && s.subrange(i, i + p.len()) != p {
        lemma_find_bounds(s, p, i + 1);
    }
}

/// Whether `s[i..i + p.len()]` equals `p`.
pub fn chars_match_at(s: &Vec<char>, p: &Vec<char>, i: usize) -> (r: bool)
    requires
        i <= s.len(),
    ensures
        r == (i + p.len() <= s.len() && s@.subrange(i as int, i + p.len()) == p@),
{
    if p.len() > s.len() - i {
        return false;
    }
    let mut k: usize = 0;
    while k < p.len()
        invariant
            i + p.len() <= s.len(),
            k <= p.len(),
            forall|j: int| 0 <= j < k ==> s@[i + j] == p@[j],
        decreases p.len() - k,
    {
        if s[i + k] != p[k] {
            assert(s@.subrange(i as int, i + p.len())[k as int] != p@[k as int]);
            return false;
        }
        k = k + 1;
    }
    assert(s@.subrange(i as int, i + p.len()) =~= p@);
    true
}

/// Finds the first occurrence of `p` in `s` at or after `from`.
pub fn chars_find_from(s: &Vec<char>, p: &Vec<char>, from: usize) -> (r: Option<usize>)
    requires
        from <= s.len(),
    ensures
        match r {
            Some(i) => find_from(s@, p@, from as int) == Some(i as int),
            None => find_from(s@, p@, from as int) is None,
        },
{
    let mut i = from;
    loop
        invariant
            from <= i <= s.len(),
            find_from(s@, p@, from as int) == find_from(s@, p@, i as int),
        decreases s.len() - i,
    {
        if chars_match_at(s, p, i) {
            return Some(i);
        }
        if p.len() >= s.len() - i {
            assert(find_from(s@, p@, i + 1) is None);
            return None;
        }
        i = i + 1;
    }
}

// ---------------------------------------------------------------------------
// Joining
// ---------------------------------------------------------------------------

/// The parts joined with `sep` between each neighbouring pair, as `[String]::join`.
pub open spec fn join(parts: Seq<Seq<char>>, sep: Seq<char>) -> Seq<char>
    decreases parts.len(),
{
    if parts.len() == 0 {
        seq![]
    } else if parts.len() == 1 {
        parts[0]
    } else {
        join(parts.drop_last(), sep) + sep + parts.last()
    }
}

/// The views of a vector of character vectors.
pub open spec fn views(v: Seq<Vec<char>>) -> Seq<Seq<char>> {
    v.map_values(|w: Vec<char>| w@)
}

/// Joins the parts with `sep`.
pub fn join_chars(parts: &Vec<Vec<char>>, sep: &Vec<char>) -> (r: Vec<char>)
    ensures
        r@ == join(views(parts@), sep@),
{
    let mut r: Vec<char> = Vec::new();
    let mut i: usize = 0;
    while i < parts.len()
        invariant
            i <= parts.len(),
            r@ == join(views(parts@).take(i as int), sep@),
        decreases parts.len() - i,
    {
        let ghost before = views(parts@).take(i as int);
        if i > 0 {
            append_chars(&mut r, sep);
        }
        append_chars(&mut r, &parts[i]);
        i = i + 1;
        proof {
            let now = views(parts@).take(i as int);
            assert(now.drop_last() =~= before);
            if i == 1 {
                assert(r@ =~= now[0]);
            }
        }
    }
    assert(views(parts@).take(parts.len() as int) =~= views(parts@));
    r
}

// ---------------------------------------------------------------------------
// Keyed lists
// ---------------------------------------------------------------------------

/// The views of the keys of a list of keyed pairs.
pub open spec fn keys_of<T>(v: Seq<(String, T)>) -> Seq<Seq<char>> {
    v.map_values(|p: (String, T)| p.0@)
}

/// The position of the first key equal to `k`, if any.
pub open spec fn first_index(keys: Seq<Seq<char>>, k: Seq<char>) -> Option<int>
    decreases keys.len(),
{
    if keys.len() == 0 {
        None
    } else if keys[0] == k {
        Some(0)
    } else {
        match first_index(keys.drop_first(), k) {
            Some(i) => Some(i + 1),
            None => None,
        }
    }
}

/// `first_index` finds the first match, and finds none when there is none.
pub proof fn lemma_first_index(keys: Seq<Seq<char>>, k: Seq<char>, i: int)
    requires
        0 <= i <= keys.len(),
        forall|j: int| 0 <= j < i ==> keys[j] != k,
    ensures
        i < keys.len() && keys[i] == k ==> first_index(keys, k) == Some(i),
        i == keys.len() ==> first_index(keys, k) is None,
    decreases keys.len(),
{
    if keys.len() > 0 && i > 0 {
        lemma_first_index(keys.drop_first(), k, i - 1);
    }
}

/// A position found by `first_index` holds the key.
pub proof fn lemma_first_index_valid(keys: Seq<Seq<char>>, k: Seq<char>)
    ensures
        first_index(keys, k) matches Some(i) ==> 0 <= i < keys.len() && keys[i] == k,
        first_index(keys, k) is None ==> forall|j: int| 0 <= j < keys.len() ==> keys[j] != k,
    decreases keys.len(),
{
    if keys.len() > 0 {
        lemma_first_index_valid(keys.drop_first(), k);
        if keys[0] != k {
            assert forall|j: int| 1 <= j < keys.len() implies keys[j] == keys.drop_first()[j - 1] by {}
        }
    }
}

/// Finds the first pair whose key is `k`.
pub fn find_key<T>(v: &Vec<(String, T)>, k: &str) -> (r: Option<usize>)
    ensures
        match r {
            Some(i) => first_index(keys_of(v@), k@) == Some(i as int),
            None => first_index(keys_of(v@), k@) is None,
        },
        r matches Some(i) ==> i < v.len() && v@[i as int].0@ == k@,
        r is None ==> forall|j: int| 0 <= j < v.len() ==> v@[j].0@ != k@,
{
    let mut i: usize = 0;
    while i < v.len()
        invariant
            i <= v.len(),
            forall|j: int| 0 <= j < i ==> keys_of(v@)[j] != k@,
        decreases v.len() - i,
    {
        if str_eq(v[i].0.as_str(), k) {
            proof {
                lemma_first_index(keys_of(v@), k@, i as int);
            }
            return Some(i);
        }
        i = i + 1;
    }
    proof {
        lemma_first_index(keys_of(v@), k@, i as int);
        assert forall|j: int| 0 <= j < v.len() implies v@[j].0@ != k@ by {
            assert(keys_of(v@)[j] != k@);
        }
    }
    None
}

/// The position of the last occurrence of `c` in `s`, if any.
pub open spec fn last_char_index(s: Seq<char>, c: char) -> Option<int>
    decreases s.len(),
{
    if s.len() == 0 {
        None
    } else if s.last() == c {
        Some(s.len() - 1)
    } else {
        last_char_index(s.drop_last(), c)
    }
}

/// Finds the last occurrence of `c` in `s`, as `str::rfind` with a character.
pub fn rfind_char(s: &Vec<char>, c: char) -> (r: Option<usize>)
    ensures
        match r {
            Some(i) => last_char_index(s@, c) == Some(i as int) && i < s.len(),
            None => last_char_index(s@, c) is None,
        },
{
    let mut i: usize = s.len();
    assert(s@.take(i as int) =~= s@);
    while i > 0
        invariant
            i <= s.len(),
            last_char_index(s@, c) == last_char_index(s@.take(i as int), c),
        decreases i,
    {
        assert(s@.take(i as int).last() == s@[i - 1]);
        if s[i - 1] == c {
            return Some(i - 1);
        }
        assert(s@.take(i as int).drop_last() =~= s@.take(i - 1));
        i = i - 1;
    }
    None
}

/// The pieces of a text between occurrences of `sep`, as `str::split` with a character
/// separator (empty pieces kept).
pub open spec fn split_on(s: Seq<char>, sep: char) -> Seq<Seq<char>>
    decreases s.len(),
{
    match find(s, seq![sep]) {
        Some(i) => if 0 <= i < s.len() {
            seq![s.take(i)] + split_on(s.skip(i + 1), sep)
        } else {
            seq![s]
        },
        None => seq![s],
    }
}

/// Splits a text on a separator character.
pub fn split_chars(s: &Vec<char>, sep: char) -> (r: Vec<Vec<char>>)
    ensures
        views(r@) == split_on(s@, sep),
{
    let mut r: Vec<Vec<char>> = Vec::new();
    let mut start: usize = 0;
    let pat = vec![sep];
    assert(pat@ =~= seq![sep]);
    assert(s@.subrange(0, s.len() as int) =~= s@);
    loop
        invariant
            start <= s.len(),
            pat@ == seq![sep],
            views(r@) + split_on(s@.subrange(start as int, s.len() as int), sep) == split_on(s@, sep),
        decreases s.len() - start,
    {
        let rest = subrange_of(s, start, s.len());
        let f = chars_find_from(&rest, &pat, 0);
        proof {
            lemma_find_bounds(rest@, pat@, 0);
        }
        match f {
            Some(i) => {
                let piece = subrange_of(&rest, 0, i);
                let ghost old_r = views(r@);
                r.push(piece);
                assert(views(r@) =~= old_r.push(piece@));
                assert(rest@.take(i as int) =~= piece@);
                assert(rest@.skip(i + 1) =~= s@.subrange(start + i + 1, s.len() as int));
                assert(old_r.push(piece@) + split_on(rest@.skip(i + 1), sep) =~= old_r + (seq![rest@.take(i as int)] + split_on(rest@.skip(i + 1), sep)));
                start = start + i + 1;
            },
            None => {
                let ghost old_r = views(r@);
                r.push(rest);
                assert(views(r@) =~= old_r + seq![rest@]);
                return r;
            },
        }
    }
}

// ---------------------------------------------------------------------------
// Transliteration (deunicode)
// ---------------------------------------------------------------------------

/// What `deunicode::deunicode` returns for a text.
pub uninterp spec fn transliterated(s: Seq<char>) -> Seq<char>;

/// Whether every character of the text is below U+007F (ASCII without DEL).
pub open spec fn below_del(s: Seq<char>) -> bool {
    forall|i: int| 0 <= i < s.len() ==> (#[trigger] s[i] as u32) < 0x7f
}

/// Transliterates Unicode text to ASCII with `deunicode::deunicode`.
///
/// The result is named `transliterated`; it is ASCII. A text whose characters are all
/// below U+007F is handed back unchanged (the crate copies such a text as it is); DEL and
/// the characters after it go through the crate's table, where DEL maps to nothing, so
/// nothing is said of other ASCII texts beyond the name.
#[verifier::external_body]
pub fn deunicode_str(s: &str) -> (r: String)
    ensures
        r@ == transliterated(s@),
        all_ascii(r@),
        below_del(s@) ==> r@ == s@,
{
    deunicode::deunicode(s)
}

/// Whether every character of the text is ASCII.
pub fn chars_all_ascii(s: &Vec<char>) -> (r: bool)
    ensures
        r == all_ascii(s@),
{
    let mut i: usize = 0;
    while i < s.len()
        invariant
            i <= s.len(),
            forall|j: int| 0 <= j < i ==> is_ascii_char(#[trigger] s@[j]),
        decreases s.len() - i,
    {
        if (s[i] as u32) >= 128 {
            assert(!is_ascii_char(s@[i as int]));
            return false;
        }
        i = i + 1;
    }
    true
}

/// The text with every occurrence of one character replaced by another.
pub open spec fn replace_char(s: Seq<char>, from: char, to: char) -> Seq<char> {
    s.map_values(|c: char| if c == from { to } else { c })
}

/// Replaces every occurrence of `from` by `to`.
pub fn chars_replace(s: &Vec<char>, from: char, to: char) -> (r: Vec<char>)
    ensures
        r@ == replace_char(s@, from, to),
{
    let mut r: Vec<char> = Vec::new();
    let mut i: usize = 0;
    while i < s.len()
        invariant
            i <= s.len(),
            r@ == replace_char(s@.take(i as int), from, to),
        decreases s.len() - i,
    {
        let c = if s[i] == from { to } else { s[i] };
        r.push(c);
        i = i + 1;
        assert(r@ =~= replace_char(s@.take(i as int), from, to));
    }
    assert(s@.take(s.len() as int) =~= s@);
    r
}

/// The characters that trailing punctuation stripping removes.
pub open spec fn is_end_punct(c: char) -> bool {
    c == '.' || c == '!' || c == '?' || c == ',' || c == ';' || c == ':'
}

/// The text without trailing punctuation, as `trim_end_matches(['.', '!', '?', ',', ';', ':'])`.
pub open spec fn trim_end_punct(s: Seq<char>) -> Seq<char>
    decreases s.len(),
{
    if s.len() > 0 && is_end_punct(s.last()) {
        trim_end_punct(s.drop_last())
    } else {
        s
    }
}

/// Whether a character is trailing punctuation.
pub fn char_is_end_punct(c: char) -> (r: bool)
    ensures
        r == is_end_punct(c),
{
    c == '.' || c == '!' || c == '?' || c == ',' || c == ';' || c == ':'
}

/// Removes trailing punctuation.
pub fn chars_trim_end_punct(s: &Vec<char>) -> (r: Vec<char>)
    ensures
        r@ == trim_end_punct(s@),
{
    let mut j = s.len();
    assert(s@.take(j as int) =~= s@);
    while j > 0
        invariant
            j <= s.len(),
            trim_end_punct(s@) == trim_end_punct(s@.take(j as int)),
        ensures
            j <= s.len(),
            trim_end_punct(s@) == trim_end_punct(s@.take(j as int)),
            j == 0 || !is_end_punct(s@[j - 1]),
        decreases j,
    {
        if !char_is_end_punct(s[j - 1]) {
            break;
        }
        assert(s@.take(j as int).drop_last() =~= s@.take(j - 1));
        j = j - 1;
    }
    let r = subrange_of(s, 0, j);
    assert(r@ =~= s@.take(j as int));
    r
}

// ---------------------------------------------------------------------------
// Ordering
// ---------------------------------------------------------------------------

/// Lexicographic order of texts by character code (the order of `str` comparison: UTF-8
/// byte order agrees with code point order).
pub open spec fn text_lt(a: Seq<char>, b: Seq<char>) -> bool
    decreases a.len(),
{
    if a.len() == 0 {
        b.len() > 0
    } else if b.len() == 0 {
        false
    } else if a[0] != b[0] {
        a[0] < b[0]
    } else {
        text_lt(a.drop_first(), b.drop_first())
    }
}

/// The order is irreflexive and total: of two different texts exactly one comes first.
pub proof fn lemma_text_lt_total(a: Seq<char>, b: Seq<char>)
    ensures
        !text_lt(a, a),
        a != b ==> (text_lt(a, b) || text_lt(b, a)),
        !(text_lt(a, b) && text_lt(b, a)),
    decreases a.len(),
{
    if a.len() > 0 {
        lemma_text_lt_total(a.drop_first(), a.drop_first());
        if b.len() > 0 {
            lemma_text_lt_total(a.drop_first(), b.drop_first());
            if a != b && a[0] == b[0] {
                assert(a.drop_first() != b.drop_first()) by {
                    if a.drop_first() == b.drop_first() {
                        assert(a =~= seq![a[0]] + a.drop_first());
                        assert(b =~= seq![b[0]] + b.drop_first());
                    }
                }
            }
        }
    } else if b.len() == 0 {
        assert(a =~= b);
    }
}

/// The order is transitive.
pub proof fn lemma_text_lt_trans(a: Seq<char>, b: Seq<char>, c: Seq<char>)
    requires
        text_lt(a, b),
        text_lt(b, c),
    ensures
        text_lt(a, c),
    decreases a.len(),
{
    if a.len() > 0 && b.len() > 0 && c.len() > 0 && a[0] == b[0] && b[0] == c[0] {
        lemma_text_lt_trans(a.drop_first(), b.drop_first(), c.drop_first());
    }
}

/// Whether `a` comes before `b` (see `text_lt`).
pub fn chars_lt(a: &Vec<char>, b: &Vec<char>) -> (r: bool)
    ensures
        r == text_lt(a@, b@),
{
    let mut i: usize = 0;
    assert(a@.skip(0) =~= a@);
    assert(b@.skip(0) =~= b@);
    while i < a.len() && i < b.len()
        invariant
            i <= a.len(),
            i <= b.len(),
            text_lt(a@, b@) == text_lt(a@.skip(i as int), b@.skip(i as int)),
        decreases a.len() - i,
    {
        assert(a@.skip(i as int)[0] == a@[i as int]);
        assert(b@.skip(i as int)[0] == b@[i as int]);
        if a[i] != b[i] {
            return a[i] < b[i];
        }
        assert(a@.skip(i as int).drop_first() =~= a@.skip(i + 1));
        assert(b@.skip(i as int).drop_first() =~= b@.skip(i + 1));
        i = i + 1;
    }
    i < b.len()
}

} // verus!
