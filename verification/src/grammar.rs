//! Grammar rules and natural-language helpers for English: number words, pronouns,
//! verb conjugation, articles and list formatting.
use vstd::prelude::*;
use crate::models::{ActorStance, Gender, Tense};
use crate::text::{
    append_chars, append_str, chars_ends_with_str, chars_of, decimal, ends_with, join, join_chars,
    string_of, subrange_of, usize_to_string, views, str_eq, char_uppercase,
    char_has_lowercase_property, char_to_uppercase, char_is_lowercase, chars_eq,
    str_to_lowercase, unicode_lowercase, char_to_lowercase, char_lowercase, is_ascii_char,
    chars_ends_with, chars_find_from, find, find_from, lemma_find_bounds, trim, chars_trim,
    eq_ignore_ascii_case, chars_eq_ignore_ascii_case, char_is_uppercase,
    char_has_uppercase_property,
};

verus! {

// ---------------------------------------------------------------------------
// Number words
// ---------------------------------------------------------------------------

/// The cardinal word of a digit 1..=9, and the empty text for 0.
pub open spec fn ones_word(d: nat) -> Seq<char> {
    if d == 1 { "one"@ }
    else if d == 2 { "two"@ }
    else if d == 3 { "three"@ }
    else if d == 4 { "four"@ }
    else if d == 5 { "five"@ }
    else if d == 6 { "six"@ }
    else if d == 7 { "seven"@ }
    else if d == 8 { "eight"@ }
    else if d == 9 { "nine"@ }
    else { seq![] }
}

/// The cardinal word of 10 + d for d in 0..=9.
pub open spec fn teens_word(d: nat) -> Seq<char> {
    if d == 0 { "ten"@ }
    else if d == 1 { "eleven"@ }
    else if d == 2 { "twelve"@ }
    else if d == 3 { "thirteen"@ }
    else if d == 4 { "fourteen"@ }
    else if d == 5 { "fifteen"@ }
    else if d == 6 { "sixteen"@ }
    else if d == 7 { "seventeen"@ }
    else if d == 8 { "eighteen"@ }
    else { "nineteen"@ }
}

/// The word of a decade 2..=9 ("twenty" .. "ninety"), and the empty text otherwise.
pub open spec fn decade_word(d: nat) -> Seq<char> {
    if d == 2 { "twenty"@ }
    else if d == 3 { "thirty"@ }
    else if d == 4 { "forty"@ }
    else if d == 5 { "fifty"@ }
    else if d == 6 { "sixty"@ }
    else if d == 7 { "seventy"@ }
    else if d == 8 { "eighty"@ }
    else if d == 9 { "ninety"@ }
    else { seq![] }
}

fn ones_chars(d: usize) -> (r: Vec<char>)
    ensures
        r@ == ones_word(d as nat),
{
    if d == 1 { chars_of("one") }
    else if d == 2 { chars_of("two") }
    else if d == 3 { chars_of("three") }
    else if d == 4 { chars_of("four") }
    else if d == 5 { chars_of("five") }
    else if d == 6 { chars_of("six") }
    else if d == 7 { chars_of("seven") }
    else if d == 8 { chars_of("eight") }
    else if d == 9 { chars_of("nine") }
    else { Vec::new() }
}

fn teens_chars(d: usize) -> (r: Vec<char>)
    ensures
        r@ == teens_word(d as nat),
{
    if d == 0 { chars_of("ten") }
    else if d == 1 { chars_of("eleven") }
    else if d == 2 { chars_of("twelve") }
    else if d == 3 { chars_of("thirteen") }
    else if d == 4 { chars_of("fourteen") }
    else if d == 5 { chars_of("fifteen") }
    else if d == 6 { chars_of("sixteen") }
    else if d == 7 { chars_of("seventeen") }
    else if d == 8 { chars_of("eighteen") }
    else { chars_of("nineteen") }
}

fn decade_chars(d: usize) -> (r: Vec<char>)
    ensures
        r@ == decade_word(d as nat),
{
    if d == 2 { chars_of("twenty") }
    else if d == 3 { chars_of("thirty") }
    else if d == 4 { chars_of("forty") }
    else if d == 5 { chars_of("fifty") }
    else if d == 6 { chars_of("sixty") }
    else if d == 7 { chars_of("seventy") }
    else if d == 8 { chars_of("eighty") }
    else if d == 9 { chars_of("ninety") }
    else { Vec::new() }
}

/// Turns the last cardinal word of a number into its ordinal form
/// ("twenty" -> "twentieth", "one" -> "first", "seven" -> "seventh").
pub open spec fn ordinal_of_word(w: Seq<char>) -> Seq<char> {
    if ends_with(w, "y"@) {
        w.drop_last() + "ieth"@
    } else if ends_with(w, "one"@) {
        w.take(w.len() - 3) + "first"@
    } else if ends_with(w, "two"@) {
        w.take(w.len() - 3) + "second"@
    } else if ends_with(w, "three"@) {
        w.take(w.len() - 5) + "third"@
    } else if ends_with(w, "five"@) {
        w.take(w.len() - 4) + "fifth"@
    } else if ends_with(w, "eight"@) {
        w.take(w.len() - 5) + "eighth"@
    } else if ends_with(w, "nine"@) {
        w.take(w.len() - 4) + "ninth"@
    } else if ends_with(w, "twelve"@) {
        w.take(w.len() - 6) + "twelfth"@
    } else {
        w + "th"@
    }
}

fn replace_suffix(w: &Vec<char>, suffix_len: usize, replacement: &str) -> (r: Vec<char>)
    requires
        suffix_len <= w.len(),
    ensures
        r@ == w@.take(w.len() - suffix_len) + replacement@,
{
    let mut r = subrange_of(w, 0, w.len() - suffix_len);
    append_str(&mut r, replacement);
    r
}

/// Makes the last word of a number ordinal.
fn make_word_ordinal(w: &Vec<char>) -> (r: Vec<char>)
    ensures
        r@ == ordinal_of_word(w@),
{
    proof {
        reveal_strlit("y");
        reveal_strlit("one");
        reveal_strlit("two");
        reveal_strlit("three");
        reveal_strlit("five");
        reveal_strlit("eight");
        reveal_strlit("nine");
        reveal_strlit("twelve");
    }
    if chars_ends_with_str(w, "y") {
        replace_suffix(w, 1, "ieth")
    } else if chars_ends_with_str(w, "one") {
        replace_suffix(w, 3, "first")
    } else if chars_ends_with_str(w, "two") {
        replace_suffix(w, 3, "second")
    } else if chars_ends_with_str(w, "three") {
        replace_suffix(w, 5, "third")
    } else if chars_ends_with_str(w, "five") {
        replace_suffix(w, 4, "fifth")
    } else if chars_ends_with_str(w, "eight") {
        replace_suffix(w, 5, "eighth")
    } else if chars_ends_with_str(w, "nine") {
        replace_suffix(w, 4, "ninth")
    } else if chars_ends_with_str(w, "twelve") {
        replace_suffix(w, 6, "twelfth")
    } else {
        let mut r = w.clone();
        append_str(&mut r, "th");
        r
    }
}

/// The words of a number below one thousand, before they are joined with spaces
/// (e.g. 342 -> ["three hundred", "and", "forty-two"]); empty for 0.
pub open spec fn lt1000_parts(n: nat) -> Seq<Seq<char>> {
    let h: Seq<Seq<char>> = if n >= 100 {
        seq![ones_word(n / 100) + " hundred"@]
    } else {
        seq![]
    };
    let m = n % 100;
    if m > 0 {
        let a = if h.len() > 0 { h.push("and"@) } else { h };
        if 10 <= m && m < 20 {
            a.push(teens_word((m - 10) as nat))
        } else if m / 10 >= 2 {
            if m % 10 > 0 {
                a.push(decade_word(m / 10) + "-"@ + ones_word(m % 10))
            } else {
                a.push(decade_word(m / 10))
            }
        } else if m % 10 > 0 {
            a.push(ones_word(m % 10))
        } else {
            a
        }
    } else {
        h
    }
}

/// The words of a number below one thousand, cardinal ("forty-two") or ordinal ("forty-second").
pub open spec fn words_lt_1000(n: nat, is_ordinal: bool) -> Seq<char> {
    let p = lt1000_parts(n);
    if p.len() == 0 {
        if is_ordinal { "zeroth"@ } else { "zero"@ }
    } else if is_ordinal {
        join(p.update(p.len() - 1, ordinal_of_word(p.last())), " "@)
    } else {
        join(p, " "@)
    }
}

/// The cardinal words of a number below 1000 ("zero" for 0).
fn to_cardinal_words_lt_1000(n: usize) -> (r: Vec<char>)
    requires
        n < 1000,
    ensures
        r@ == (if n == 0 { "zero"@ } else { words_lt_1000(n as nat, false) }),
{
    if n == 0 {
        return chars_of("zero");
    }
    to_words_lt_1000(n, false)
}

/// The ordinal words of a number below 1000 ("zeroth" for 0).
fn to_ordinal_words_lt_1000(n: usize) -> (r: Vec<char>)
    requires
        n < 1000,
    ensures
        r@ == (if n == 0 { "zeroth"@ } else { words_lt_1000(n as nat, true) }),
{
    if n == 0 {
        return chars_of("zeroth");
    }
    to_words_lt_1000(n, true)
}

/// Builds the words of a number from 0 to 999.
fn to_words_lt_1000(n: usize, is_ordinal: bool) -> (r: Vec<char>)
    requires
        n < 1000,
    ensures
        r@ == words_lt_1000(n as nat, is_ordinal),
{
    let mut parts: Vec<Vec<char>> = Vec::new();
    if n >= 100 {
        let mut h = ones_chars(n / 100);
        append_str(&mut h, " hundred");
        parts.push(h);
    }
    let m = n % 100;
    if m > 0 {
        if parts.len() > 0 {
            parts.push(chars_of("and"));
        }
        if 10 <= m && m < 20 {
            parts.push(teens_chars(m - 10));
        } else {
            let tens_digit = m / 10;
            let ones_digit = m % 10;
            if tens_digit >= 2 {
                let mut cur = decade_chars(tens_digit);
                if ones_digit > 0 {
                    append_str(&mut cur, "-");
                    let o = ones_chars(ones_digit);
                    append_chars(&mut cur, &o);
                }
                parts.push(cur);
            } else if ones_digit > 0 {
                parts.push(ones_chars(ones_digit));
            }
        }
    }
    assert(views(parts@) =~= lt1000_parts(n as nat));
    if parts.len() == 0 {
        return if is_ordinal { chars_of("zeroth") } else { chars_of("zero") };
    }
    if is_ordinal {
        let last_index = parts.len() - 1;
        let last = make_word_ordinal(&parts[last_index]);
        parts.set(last_index, last);
        assert(views(parts@) =~= lt1000_parts(n as nat).update(
            last_index as int,
            ordinal_of_word(lt1000_parts(n as nat).last()),
        ));
    }
    let sep = chars_of(" ");
    join_chars(&parts, &sep)
}

/// The ordinal suffix of a number written in digits ("st", "nd", "rd" or "th").
pub open spec fn ordinal_suffix(n: nat) -> Seq<char> {
    if 11 <= n % 100 && n % 100 <= 13 {
        "th"@
    } else if n % 10 == 1 {
        "st"@
    } else if n % 10 == 2 {
        "nd"@
    } else if n % 10 == 3 {
        "rd"@
    } else {
        "th"@
    }
}

/// The value of the k-th scale word, largest first (quintillion .. thousand).
pub open spec fn scale_value(k: nat) -> nat {
    if k == 0 { 1_000_000_000_000_000_000 }
    else if k == 1 { 1_000_000_000_000_000 }
    else if k == 2 { 1_000_000_000_000 }
    else if k == 3 { 1_000_000_000 }
    else if k == 4 { 1_000_000 }
    else { 1_000 }
}

/// The k-th scale word.
pub open spec fn scale_name(k: nat) -> Seq<char> {
    if k == 0 { "quintillion"@ }
    else if k == 1 { "quadrillion"@ }
    else if k == 2 { "trillion"@ }
    else if k == 3 { "billion"@ }
    else if k == 4 { "million"@ }
    else { "thousand"@ }
}

/// The scale parts of a number from scale k down ("two million", "forty thousand", ...)
/// and what is left below one thousand.
pub open spec fn scale_parts(rem: nat, k: nat) -> (Seq<Seq<char>>, nat)
    decreases 6 - k,
{
    if k >= 6 {
        (seq![], rem)
    } else if rem >= scale_value(k) {
        let rest = scale_parts(rem % scale_value(k), k + 1);
        (
            seq![words_lt_1000(rem / scale_value(k), false) + " "@ + scale_name(k)] + rest.0,
            rest.1,
        )
    } else {
        scale_parts(rem, k + 1)
    }
}

/// The ordinal words of a number ("twenty-first", "one thousand and first"), or, above the
/// threshold, its digits with an ordinal suffix ("1001st").
pub open spec fn ordinal_word(n: nat, threshold: nat) -> Seq<char> {
    if n > threshold {
        decimal(n) + ordinal_suffix(n)
    } else if n == 0 {
        "zeroth"@
    } else {
        let (parts, rem) = scale_parts(n, 0);
        if rem > 0 {
            let p = if parts.len() > 0 && rem < 100 { parts.push("and"@) } else { parts };
            join(p.push(words_lt_1000(rem, true)), " "@)
        } else {
            join(parts.update(parts.len() - 1, parts.last() + "th"@), " "@)
        }
    }
}

proof fn lemma_scale_parts(rem: nat, k: nat)
    requires
        k <= 6,
        rem < 20_000_000_000_000_000_000,
        k > 0 ==> rem < scale_value((k - 1) as nat),
    ensures
        scale_parts(rem, k).1 < 1000,
        scale_parts(rem, k).1 <= rem,
        scale_parts(rem, k).1 == 0 && rem > 0 ==> scale_parts(rem, k).0.len() > 0,
        scale_parts(rem, k).1 < rem ==> scale_parts(rem, k).0.len() > 0,
    decreases 6 - k,
{
    if k < 6 {
        if rem >= scale_value(k) {
            assert(rem % scale_value(k) < scale_value(k));
            lemma_scale_parts(rem % scale_value(k), k + 1);
        } else {
            lemma_scale_parts(rem, k + 1);
        }
    }
}

fn scale_value_exec(k: usize) -> (v: u64)
    requires
        k < 6,
    ensures
        v == scale_value(k as nat),
{
    if k == 0 { 1_000_000_000_000_000_000 }
    else if k == 1 { 1_000_000_000_000_000 }
    else if k == 2 { 1_000_000_000_000 }
    else if k == 3 { 1_000_000_000 }
    else if k == 4 { 1_000_000 }
    else { 1_000 }
}

fn scale_name_chars(k: usize) -> (r: Vec<char>)
    ensures
        r@ == scale_name(k as nat),
{
    if k == 0 { chars_of("quintillion") }
    else if k == 1 { chars_of("quadrillion") }
    else if k == 2 { chars_of("trillion") }
    else if k == 3 { chars_of("billion") }
    else if k == 4 { chars_of("million") }
    else { chars_of("thousand") }
}

fn ordinal_suffix_str(n: usize) -> (r: &'static str)
    ensures
        r@ == ordinal_suffix(n as nat),
{
    let h = n % 100;
    if 11 <= h && h <= 13 {
        "th"
    } else if n % 10 == 1 {
        "st"
    } else if n % 10 == 2 {
        "nd"
    } else if n % 10 == 3 {
        "rd"
    } else {
        "th"
    }
}

/// Converts a number into its ordinal word representation (e.g., 3 -> "third").
/// Numbers above `threshold` are written in digits with a suffix (e.g. "1001st").
pub fn number_to_ordinal_word(n: usize, threshold: usize) -> (r: String)
    ensures
        r@ == ordinal_word(n as nat, threshold as nat),
{
    if n > threshold {
        let digits = usize_to_string(n);
        let mut v = chars_of(digits.as_str());
        append_str(&mut v, ordinal_suffix_str(n));
        return string_of(&v);
    }
    if n == 0 {
        return string_of(&chars_of("zeroth"));
    }
    let mut parts: Vec<Vec<char>> = Vec::new();
    let mut remainder: u64 = n as u64;
    let mut k: usize = 0;
    proof {
        lemma_scale_parts(n as nat, 0);
    }
    while k < 6
        invariant
            k <= 6,
            remainder <= n,
            n < 20_000_000_000_000_000_000,
            k > 0 ==> remainder < scale_value((k - 1) as nat),
            views(parts@) + scale_parts(remainder as nat, k as nat).0 == scale_parts(
                n as nat,
                0,
            ).0,
            scale_parts(remainder as nat, k as nat).1 == scale_parts(n as nat, 0).1,
        decreases 6 - k,
    {
        let sv = scale_value_exec(k);
        if remainder >= sv {
            let count = remainder / sv;
            assert(1 <= count < 1000) by (nonlinear_arith)
                requires
                    remainder >= sv,
                    count == remainder / sv,
                    sv >= 1000,
                    k > 0 ==> remainder < scale_value((k - 1) as nat),
                    k == 0 ==> sv == 1_000_000_000_000_000_000 && remainder < 20_000_000_000_000_000_000,
                    k == 1 ==> sv == 1_000_000_000_000_000,
                    k == 2 ==> sv == 1_000_000_000_000,
                    k == 3 ==> sv == 1_000_000_000,
                    k == 4 ==> sv == 1_000_000,
                    k == 5 ==> sv == 1_000,
                    k < 6,
            {
            }
            let mut part = to_cardinal_words_lt_1000(count as usize);
            append_str(&mut part, " ");
            let name = scale_name_chars(k);
            append_chars(&mut part, &name);
            let ghost old_parts = views(parts@);
            let ghost prev = remainder;
            parts.push(part);
            assert(views(parts@) =~= old_parts.push(part@));
            remainder = remainder % sv;
            proof {
                let rest = scale_parts(remainder as nat, (k + 1) as nat);
                assert(seq![part@] + rest.0 =~= scale_parts(prev as nat, k as nat).0);
                assert(old_parts.push(part@) + rest.0 =~= old_parts + (seq![part@] + rest.0));
            }
        }
        k = k + 1;
    }
    let rem = remainder as usize;
    let ghost all = scale_parts(n as nat, 0);
    assert(views(parts@) + Seq::<Seq<char>>::empty() =~= views(parts@));
    assert(views(parts@) == all.0 && remainder == all.1);
    if remainder > 0 {
        let ghost p0 = if parts.len() > 0 && rem < 100 { all.0.push("and"@) } else { all.0 };
        if parts.len() > 0 && rem < 100 {
            parts.push(chars_of("and"));
        }
        assert(views(parts@) =~= p0);
        let last = to_ordinal_words_lt_1000(rem);
        parts.push(last);
        assert(views(parts@) =~= p0.push(words_lt_1000(rem as nat, true)));
    } else {
        let last_index = parts.len() - 1;
        let mut last = parts[last_index].clone();
        append_str(&mut last, "th");
        parts.set(last_index, last);
        assert(views(parts@) =~= all.0.update(all.0.len() - 1, all.0.last() + "th"@));
    }
    let sep = chars_of(" ");
    let joined = join_chars(&parts, &sep);
    string_of(&joined)
}

// ---------------------------------------------------------------------------
// Pronouns
// ---------------------------------------------------------------------------

/// The five forms (subject, object, possessive, absolute possessive, reflexive) of the
/// pronoun set that refers to an entity from the given perspective.
pub open spec fn pronoun_forms(gender: Gender, is_viewer: bool, is_plural: bool, stance: ActorStance) -> Seq<Seq<char>> {
    if is_viewer {
        if stance == ActorStance::FirstPerson {
            if is_plural {
                seq!["we"@, "us"@, "our"@, "ours"@, "ourselves"@]
            } else {
                seq!["I"@, "me"@, "my"@, "mine"@, "myself"@]
            }
        } else if is_plural {
            seq!["you"@, "you"@, "your"@, "yours"@, "yourselves"@]
        } else {
            seq!["you"@, "you"@, "your"@, "yours"@, "yourself"@]
        }
    } else {
        match gender {
            Gender::Male => seq!["he"@, "him"@, "his"@, "his"@, "himself"@],
            Gender::Female => seq!["she"@, "her"@, "her"@, "hers"@, "herself"@],
            Gender::Neutral => seq!["it"@, "it"@, "its"@, "its"@, "itself"@],
            Gender::Plural => seq!["they"@, "them"@, "their"@, "theirs"@, "themselves"@],
        }
    }
}

/// The position of a pronoun case name ("subj", "obj", "poss", "abs_poss", "reflex") in a
/// pronoun set, if it is one.
pub open spec fn pronoun_case(p_type: Seq<char>) -> Option<int> {
    if p_type == "subj"@ {
        Some(0)
    } else if p_type == "obj"@ {
        Some(1)
    } else if p_type == "poss"@ {
        Some(2)
    } else if p_type == "abs_poss"@ {
        Some(3)
    } else if p_type == "reflex"@ {
        Some(4)
    } else {
        None
    }
}

/// The error text for an unknown pronoun case.
pub open spec fn unknown_pronoun_message(p_type: Seq<char>) -> Seq<char> {
    "Unknown pronoun type: "@ + p_type
}

fn pick(i: usize, a: &'static str, b: &'static str, c: &'static str, d: &'static str, e: &'static str) -> (r: &'static str)
    requires
        i < 5,
    ensures
        r@ == seq![a@, b@, c@, d@, e@][i as int],
{
    if i == 0 { a } else if i == 1 { b } else if i == 2 { c } else if i == 3 { d } else { e }
}

/// Returns the correct pronoun based on gender, pronoun case and perspective, or an error
/// for an unknown pronoun case.
pub fn resolve_pronoun(
    gender: Gender,
    p_type: &str,
    is_viewer: bool,
    is_plural: bool,
    stance: ActorStance,
) -> (r: Result<&'static str, String>)
    ensures
        match r {
            Ok(s) => pronoun_case(p_type@) is Some && s@ == pronoun_forms(
                gender,
                is_viewer,
                is_plural,
                stance,
            )[pronoun_case(p_type@)->0],
            Err(e) => pronoun_case(p_type@) is None && e@ == unknown_pronoun_message(p_type@),
        },
{
    let idx: usize = if str_eq(p_type, "subj") {
        0
    } else if str_eq(p_type, "obj") {
        1
    } else if str_eq(p_type, "poss") {
        2
    } else if str_eq(p_type, "abs_poss") {
        3
    } else if str_eq(p_type, "reflex") {
        4
    } else {
        let mut msg = chars_of("Unknown pronoun type: ");
        append_str(&mut msg, p_type);
        return Err(string_of(&msg));
    };
    let word = if is_viewer {
        match stance {
            ActorStance::FirstPerson => {
                if is_plural {
                    pick(idx, "we", "us", "our", "ours", "ourselves")
                } else {
                    pick(idx, "I", "me", "my", "mine", "myself")
                }
            },
            _ => {
                if is_plural {
                    pick(idx, "you", "you", "your", "yours", "yourselves")
                } else {
                    pick(idx, "you", "you", "your", "yours", "yourself")
                }
            },
        }
    } else {
        match gender {
            Gender::Male => pick(idx, "he", "him", "his", "his", "himself"),
            Gender::Female => pick(idx, "she", "her", "her", "hers", "herself"),
            Gender::Neutral => pick(idx, "it", "it", "its", "its", "itself"),
            Gender::Plural => pick(idx, "they", "them", "their", "theirs", "themselves"),
        }
    };
    Ok(word)
}

// ---------------------------------------------------------------------------
// Capitalisation and lists
// ---------------------------------------------------------------------------

/// The text with its first character replaced by that character's upper-case mapping.
pub open spec fn capitalized(s: Seq<char>) -> Seq<char> {
    if s.len() == 0 {
        seq![]
    } else {
        char_uppercase(s[0]) + s.drop_first()
    }
}

/// The text capitalised when asked to and when it starts with a lower-case letter.
pub open spec fn capitalized_if(s: Seq<char>, should: bool) -> Seq<char> {
    if should && s.len() > 0 && char_has_lowercase_property(s[0]) {
        capitalized(s)
    } else {
        s
    }
}

/// Capitalizes the first letter of a character sequence.
pub fn capitalize_chars(s: &Vec<char>) -> (r: Vec<char>)
    ensures
        r@ == capitalized(s@),
{
    if s.len() == 0 {
        return Vec::new();
    }
    let mut r = char_to_uppercase(s[0]);
    let rest = subrange_of(s, 1, s.len());
    append_chars(&mut r, &rest);
    assert(s@.drop_first() =~= s@.subrange(1, s.len() as int));
    r
}

/// Capitalizes the first letter of a string slice.
pub fn capitalize_first(s: &str) -> (r: String)
    ensures
        r@ == capitalized(s@),
{
    let v = chars_of(s);
    let c = capitalize_chars(&v);
    string_of(&c)
}

/// Capitalizes the text when asked to and when it begins with a lower-case letter.
pub fn capitalize_chars_if(s: &Vec<char>, should: bool) -> (r: Vec<char>)
    ensures
        r@ == capitalized_if(s@, should),
{
    if should && s.len() > 0 && char_is_lowercase(s[0]) {
        capitalize_chars(s)
    } else {
        s.clone()
    }
}

/// Appends the text to the output, capitalised when asked to and when it begins with a
/// lower-case letter.
pub fn push_capitalized_if(output: &mut String, text: &str, should_capitalize: bool)
    ensures
        final(output)@ == old(output)@ + capitalized_if(text@, should_capitalize),
{
    let t = capitalize_chars_if(&chars_of(text), should_capitalize);
    let mut all = chars_of(output.as_str());
    append_chars(&mut all, &t);
    *output = string_of(&all);
}

/// A verb with its first letter capitalised when asked to.
pub open spec fn formatted_verb(verb: Seq<char>, is_capitalized: bool) -> Seq<char> {
    if is_capitalized { capitalized(verb) } else { verb }
}

/// Formats a verb by capitalising its first letter when `is_capitalized` is set.
pub fn format_verb(verb: &str, is_capitalized: bool) -> (r: String)
    ensures
        r@ == formatted_verb(verb@, is_capitalized),
{
    if is_capitalized {
        capitalize_first(verb)
    } else {
        String::from_str(verb)
    }
}

/// The items as an Oxford-comma list ("a", "a and b", "a, b, and c").
pub open spec fn oxford_list(items: Seq<Seq<char>>, conjunction: Seq<char>) -> Seq<char> {
    if items.len() == 0 {
        seq![]
    } else if items.len() == 1 {
        items[0]
    } else if items.len() == 2 {
        items[0] + " "@ + conjunction + " "@ + items[1]
    } else {
        join(items.drop_last(), ", "@) + ", "@ + conjunction + " "@ + items.last()
    }
}

/// The views of a vector of strings.
pub open spec fn string_views(v: Seq<String>) -> Seq<Seq<char>> {
    v.map_values(|s: String| s@)
}

/// Formats a list of strings into an Oxford comma-separated string.
pub fn format_oxford_list(items: Vec<String>, conjunction: &str) -> (r: String)
    ensures
        r@ == oxford_list(string_views(items@), conjunction@),
{
    let n = items.len();
    if n == 0 {
        return String::new();
    }
    if n == 1 {
        return items[0].clone();
    }
    let mut parts: Vec<Vec<char>> = Vec::new();
    let mut i: usize = 0;
    while i < n - 1
        invariant
            n == items.len(),
            n >= 2,
            i <= n - 1,
            views(parts@) == string_views(items@).take(i as int),
        decreases n - 1 - i,
    {
        let ghost before = views(parts@);
        let w = chars_of(items[i].as_str());
        assert(w@ == string_views(items@)[i as int]);
        parts.push(w);
        assert(views(parts@) =~= before.push(w@));
        i = i + 1;
        assert(views(parts@) =~= string_views(items@).take(i as int));
    }
    let mut out: Vec<char>;
    if n == 2 {
        out = chars_of(items[0].as_str());
        append_str(&mut out, " ");
    } else {
        let sep = chars_of(", ");
        out = join_chars(&parts, &sep);
        append_str(&mut out, ", ");
    }
    append_str(&mut out, conjunction);
    append_str(&mut out, " ");
    append_str(&mut out, items[n - 1].as_str());
    proof {
        assert(string_views(items@).take((n - 1) as int) =~= string_views(items@).drop_last());
    }
    string_of(&out)
}

// ---------------------------------------------------------------------------
// Runtime irregular-verb dictionary
// ---------------------------------------------------------------------------

/// A custom irregular verb: its base form and its third-person present and past forms.
pub struct VerbEntry {
    /// The lower-case base form ("yeet").
    pub base: String,
    /// The third-person singular present form ("yeetses").
    pub present: String,
    /// The past form ("yeeted").
    pub past: String,
}

/// The runtime dictionary of custom irregular verbs that builders inject. It takes
/// precedence over the built-in table during conjugation.
pub struct VerbDictionary {
    entries: Vec<VerbEntry>,
}

impl VerbDictionary {
    #[verifier::type_invariant]
    spec fn unique_bases(self) -> bool {
        forall|i: int, j: int|
            0 <= i < self.entries.len() && 0 <= j < self.entries.len() && i != j
                ==> #[trigger] self.entries@[i].base@ != #[trigger] self.entries@[j].base@
    }

    spec fn holds(self, k: Seq<char>) -> bool {
        exists|i: int| 0 <= i < self.entries.len() && #[trigger] self.entries@[i].base@ == k
    }

    spec fn index_of(self, k: Seq<char>) -> int {
        choose|i: int| 0 <= i < self.entries.len() && #[trigger] self.entries@[i].base@ == k
    }

    /// The dictionary as a map from base form to (present, past).
    pub closed spec fn map(self) -> Map<Seq<char>, (Seq<char>, Seq<char>)> {
        Map::new(
            |k: Seq<char>| self.holds(k),
            |k: Seq<char>|
                (self.entries@[self.index_of(k)].present@, self.entries@[self.index_of(k)].past@),
        )
    }

    proof fn lemma_entry(self, i: int)
        requires
            self.unique_bases(),
            0 <= i < self.entries.len(),
        ensures
            self.map().contains_key(self.entries@[i].base@),
            self.map()[self.entries@[i].base@] == (self.entries@[i].present@, self.entries@[i].past@),
    {
        let k = self.entries@[i].base@;
        assert(self.holds(k));
        let c = self.index_of(k);
        assert(self.entries@[c].base@ == k);
    }

    /// An empty dictionary.
    pub fn new() -> (r: Self)
        ensures
            r.map() == Map::<Seq<char>, (Seq<char>, Seq<char>)>::empty(),
    {
        let r = VerbDictionary { entries: Vec::new() };
        assert(r.map() =~= Map::<Seq<char>, (Seq<char>, Seq<char>)>::empty());
        r
    }

    fn position(&self, base: &Vec<char>) -> (r: Option<usize>)
        ensures
            match r {
                Some(i) => i < self.entries.len() && self.entries@[i as int].base@ == base@,
                None => !self.map().contains_key(base@),
            },
    {
        let mut i: usize = 0;
        while i < self.entries.len()
            invariant
                i <= self.entries.len(),
                forall|j: int| 0 <= j < i ==> self.entries@[j].base@ != base@,
            decreases self.entries.len() - i,
        {
            let b = chars_of(self.entries[i].base.as_str());
            if chars_eq(&b, base) {
                return Some(i);
            }
            i = i + 1;
        }
        None
    }

    /// Looks up the (present, past) forms of a lower-case base verb.
    pub fn lookup(&self, base: &Vec<char>) -> (r: Option<(String, String)>)
        ensures
            match r {
                Some((present, past)) => self.map().contains_key(base@) && self.map()[base@] == (
                    present@,
                    past@,
                ),
                None => !self.map().contains_key(base@),
            },
    {
        proof {
            use_type_invariant(self);
        }
        match self.position(base) {
            Some(i) => {
                proof {
                    self.lemma_entry(i as int);
                }
                Some((self.entries[i].present.clone(), self.entries[i].past.clone()))
            },
            None => None,
        }
    }

    /// Whether a lower-case base verb has an entry.
    pub fn contains(&self, base: &Vec<char>) -> (r: bool)
        ensures
            r == self.map().contains_key(base@),
    {
        proof {
            use_type_invariant(self);
        }
        match self.position(base) {
            Some(i) => {
                proof {
                    self.lemma_entry(i as int);
                }
                true
            },
            None => false,
        }
    }

    /// Sets the entry for `base`, replacing any earlier one.
    pub fn insert(&mut self, base: String, present: String, past: String)
        ensures
            final(self).map() == old(self).map().insert(base@, (present@, past@)),
    {
        proof {
            use_type_invariant(&*self);
        }
        let key = chars_of(base.as_str());
        let ghost k = base@;
        let ghost v = (present@, past@);
        let ghost before = *self;
        match self.position(&key) {
            Some(i) => {
                let mut es: Vec<VerbEntry> = Vec::new();
                std::mem::swap(&mut es, &mut self.entries);
                es.set(i, VerbEntry { base, present, past });
                proof {
                    assert forall|a: int, b: int|
                        0 <= a < es.len() && 0 <= b < es.len() && a != b implies #[trigger] es@[a].base@ != #[trigger] es@[b].base@ by {
                        if a != i as int && b != i as int {
                            assert(before.entries@[a].base@ != before.entries@[b].base@);
                        } else if a == i as int {
                            assert(before.entries@[b].base@ != before.entries@[i as int].base@);
                        } else {
                            assert(before.entries@[a].base@ != before.entries@[i as int].base@);
                        }
                    }
                }
                self.entries = es;
                proof {
                    let after = *self;
                    assert forall|x: Seq<char>| after.map().contains_key(x) == before.map().insert(k, v).contains_key(x) by {
                        if before.holds(x) {
                            let j = choose|j: int| 0 <= j < before.entries.len() && #[trigger] before.entries@[j].base@ == x;
                            assert(after.entries@[j].base@ == x);
                        }
                        if after.holds(x) {
                            let j = choose|j: int| 0 <= j < after.entries.len() && #[trigger] after.entries@[j].base@ == x;
                            if j != i {
                                assert(before.entries@[j].base@ == x);
                            }
                        }
                    }
                    assert forall|x: Seq<char>| #[trigger] after.map().contains_key(x) implies after.map()[x] == before.map().insert(k, v)[x] by {
                        let j = choose|j: int| 0 <= j < after.entries.len() && #[trigger] after.entries@[j].base@ == x;
                        after.lemma_entry(j);
                        if j != i {
                            assert(before.entries@[j].base@ == x);
                            before.lemma_entry(j);
                        }
                    }
                    assert(after.map() =~= before.map().insert(k, v));
                }
            },
            None => {
                let mut es: Vec<VerbEntry> = Vec::new();
                std::mem::swap(&mut es, &mut self.entries);
                es.push(VerbEntry { base, present, past });
                proof {
                    assert forall|a: int, b: int|
                        0 <= a < es.len() && 0 <= b < es.len() && a != b implies #[trigger] es@[a].base@ != #[trigger] es@[b].base@ by {
                        let n = before.entries.len() as int;
                        if a != n && b != n {
                            assert(before.entries@[a].base@ != before.entries@[b].base@);
                        } else if a == n {
                            assert(!before.holds(k));
                            assert(before.entries@[b].base@ != k);
                        } else {
                            assert(!before.holds(k));
                            assert(before.entries@[a].base@ != k);
                        }
                    }
                }
                self.entries = es;
                proof {
                    let after = *self;
                    let n = before.entries.len() as int;
                    assert(after.entries@[n].base@ == k);
                    assert forall|x: Seq<char>| after.map().contains_key(x) == before.map().insert(k, v).contains_key(x) by {
                        if before.holds(x) {
                            let j = choose|j: int| 0 <= j < before.entries.len() && #[trigger] before.entries@[j].base@ == x;
                            assert(after.entries@[j].base@ == x);
                        }
                        if after.holds(x) {
                            let j = choose|j: int| 0 <= j < after.entries.len() && #[trigger] after.entries@[j].base@ == x;
                            if j != n {
                                assert(before.entries@[j].base@ == x);
                            }
                        }
                    }
                    assert forall|x: Seq<char>| #[trigger] after.map().contains_key(x) implies after.map()[x] == before.map().insert(k, v)[x] by {
                        let j = choose|j: int| 0 <= j < after.entries.len() && #[trigger] after.entries@[j].base@ == x;
                        after.lemma_entry(j);
                        if j != n {
                            assert(before.entries@[j].base@ == x);
                            before.lemma_entry(j);
                        }
                    }
                    assert(after.map() =~= before.map().insert(k, v));
                }
            },
        }
    }

    /// Removes the entry for `base`; reports whether there was one.
    pub fn remove(&mut self, base: &Vec<char>) -> (r: bool)
        ensures
            r == old(self).map().contains_key(base@),
            final(self).map() == old(self).map().remove(base@),
    {
        proof {
            use_type_invariant(&*self);
        }
        let ghost before = *self;
        let ghost k = base@;
        match self.position(base) {
            Some(i) => {
                proof {
                    before.lemma_entry(i as int);
                }
                let mut es: Vec<VerbEntry> = Vec::new();
                std::mem::swap(&mut es, &mut self.entries);
                es.remove(i);
                proof {
                    assert forall|a: int, b: int|
                        0 <= a < es.len() && 0 <= b < es.len() && a != b implies #[trigger] es@[a].base@ != #[trigger] es@[b].base@ by {
                        let a2 = if a < i { a } else { a + 1 };
                        let b2 = if b < i { b } else { b + 1 };
                        assert(es@[a] == before.entries@[a2]);
                        assert(es@[b] == before.entries@[b2]);
                        assert(before.entries@[a2].base@ != before.entries@[b2].base@);
                    }
                }
                self.entries = es;
                proof {
                    let after = *self;
                    assert forall|x: Seq<char>| after.map().contains_key(x) == before.map().remove(k).contains_key(x) by {
                        if before.holds(x) && x != k {
                            let j = choose|j: int| 0 <= j < before.entries.len() && #[trigger] before.entries@[j].base@ == x;
                            if j < i {
                                assert(after.entries@[j].base@ == x);
                            } else {
                                assert(j != i);
                                assert(after.entries@[j - 1].base@ == x);
                            }
                        }
                        if after.holds(x) {
                            let j = choose|j: int| 0 <= j < after.entries.len() && #[trigger] after.entries@[j].base@ == x;
                            if j < i {
                                assert(before.entries@[j].base@ == x);
                            } else {
                                assert(before.entries@[j + 1].base@ == x);
                            }
                        }
                    }
                    assert forall|x: Seq<char>| #[trigger] after.map().contains_key(x) implies after.map()[x] == before.map().remove(k)[x] by {
                        let j = choose|j: int| 0 <= j < after.entries.len() && #[trigger] after.entries@[j].base@ == x;
                        after.lemma_entry(j);
                        if j < i {
                            assert(before.entries@[j].base@ == x);
                            before.lemma_entry(j);
                        } else {
                            assert(before.entries@[j + 1].base@ == x);
                            before.lemma_entry(j + 1);
                        }
                    }
                    assert(after.map() =~= before.map().remove(k));
                }
                true
            },
            None => {
                assert(before.map().remove(k) =~= before.map());
                false
            },
        }
    }

    /// Removes every entry.
    pub fn clear(&mut self)
        ensures
            final(self).map() == Map::<Seq<char>, (Seq<char>, Seq<char>)>::empty(),
    {
        self.entries = Vec::new();
        assert(self.map() =~= Map::<Seq<char>, (Seq<char>, Seq<char>)>::empty());
    }
}

/// The past-tense forms between which a base verb is ambiguous, if it is: "lie" is "lay"
/// when resting and "lied" when deceiving; "hang" is "hung" for things and "hanged" for
/// people.
pub open spec fn collision_options(verb: Seq<char>) -> Option<Seq<Seq<char>>> {
    if verb == "lie"@ {
        Some(seq!["lay"@, "lied"@])
    } else if verb == "hang"@ {
        Some(seq!["hung"@, "hanged"@])
    } else {
        None
    }
}

/// The past-tense forms between which a base verb is ambiguous (see `collision_options`).
pub fn get_collision_options(verb: &str) -> (r: Option<Vec<&'static str>>)
    ensures
        match r {
            Some(v) => collision_options(verb@) == Some(v@.map_values(|s: &str| s@)),
            None => collision_options(verb@) is None,
        },
{
    let v = chars_of(verb);
    if eq_lit(&v, "lie") {
        let r = vec!["lay", "lied"];
        assert(r@.map_values(|s: &str| s@) =~= seq!["lay"@, "lied"@]);
        Some(r)
    } else if eq_lit(&v, "hang") {
        let r = vec!["hung", "hanged"];
        assert(r@.map_values(|s: &str| s@) =~= seq!["hung"@, "hanged"@]);
        Some(r)
    } else {
        None
    }
}

/// Adds a custom irregular verb to the runtime dictionary.
///
/// Fails when the lower-cased base verb is already in the built-in table or in the
/// runtime dictionary; otherwise stores the lower-cased forms.
pub fn add_irregular_verb(dict: &mut VerbDictionary, base: &str, present: &str, past: &str) -> (r: Result<(), String>)
    ensures
        static_irregular(unicode_lowercase(base@)) is Some ==> r is Err && r->Err_0@ == "Verb '"@ + unicode_lowercase(base@)
            + "' already exists in the static dictionary."@ && final(dict).map() == old(dict).map(),
        static_irregular(unicode_lowercase(base@)) is None && old(dict).map().contains_key(
            unicode_lowercase(base@),
        ) ==> r is Err && r->Err_0@ == "Verb '"@ + unicode_lowercase(base@)
            + "' already exists in the runtime dictionary."@ && final(dict).map() == old(dict).map(),
        static_irregular(unicode_lowercase(base@)) is None && !old(dict).map().contains_key(
            unicode_lowercase(base@),
        ) ==> r is Ok && final(dict).map() == old(dict).map().insert(
            unicode_lowercase(base@),
            (unicode_lowercase(present@), unicode_lowercase(past@)),
        ),
{
    let lower_base = str_to_lowercase(base);
    let lb = chars_of(lower_base.as_str());
    if static_irregular_exec(&lb).is_some() {
        let mut msg = chars_of("Verb '");
        append_chars(&mut msg, &lb);
        append_str(&mut msg, "' already exists in the static dictionary.");
        return Err(string_of(&msg));
    }
    if dict.contains(&lb) {
        let mut msg = chars_of("Verb '");
        append_chars(&mut msg, &lb);
        append_str(&mut msg, "' already exists in the runtime dictionary.");
        return Err(string_of(&msg));
    }
    let lower_present = str_to_lowercase(present);
    let lower_past = str_to_lowercase(past);
    dict.insert(lower_base, lower_present, lower_past);
    Ok(())
}

/// Adds a custom irregular verb, overwriting any runtime entry for the same base verb.
/// The runtime dictionary takes precedence over the built-in table during conjugation.
pub fn force_add_irregular_verb(dict: &mut VerbDictionary, base: &str, present: &str, past: &str)
    ensures
        final(dict).map() == old(dict).map().insert(
            unicode_lowercase(base@),
            (unicode_lowercase(present@), unicode_lowercase(past@)),
        ),
{
    let lower_base = str_to_lowercase(base);
    let lower_present = str_to_lowercase(present);
    let lower_past = str_to_lowercase(past);
    dict.insert(lower_base, lower_present, lower_past);
}

/// Removes a custom irregular verb; reports whether it was in the runtime dictionary.
pub fn remove_irregular_verb(dict: &mut VerbDictionary, base: &str) -> (r: bool)
    ensures
        r == old(dict).map().contains_key(unicode_lowercase(base@)),
        final(dict).map() == old(dict).map().remove(unicode_lowercase(base@)),
{
    let lower_base = str_to_lowercase(base);
    let lb = chars_of(lower_base.as_str());
    dict.remove(&lb)
}

/// Clears all custom irregular verbs.
pub fn clear_irregular_verbs(dict: &mut VerbDictionary)
    ensures
        final(dict).map() == Map::<Seq<char>, (Seq<char>, Seq<char>)>::empty(),
{
    dict.clear();
}

// ---------------------------------------------------------------------------
// Verb conjugation
// ---------------------------------------------------------------------------

/// The built-in irregular verbs: base (or past) form to (third-person present, past).
pub open spec fn static_irregular(v: Seq<char>) -> Option<(Seq<char>, Seq<char>)> {
    if v.len() == 0 {
        None
    } else if v[0] == 'a' {
        irregular_a(v)
    } else if v[0] == 'b' {
        irregular_b(v)
    } else if v[0] == 'c' {
        irregular_c(v)
    } else if v[0] == 'd' {
        irregular_d(v)
    } else if v[0] == 'e' {
        irregular_e(v)
    } else if v[0] == 'f' {
        irregular_f(v)
    } else if v[0] == 'g' {
        irregular_g(v)
    } else if v[0] == 'h' {
        irregular_h(v)
    } else if v[0] == 'i' {
        irregular_i(v)
    } else if v[0] == 'k' {
        irregular_k(v)
    } else if v[0] == 'l' {
        irregular_l(v)
    } else if v[0] == 'm' {
        irregular_m(v)
    } else if v[0] == 'p' {
        irregular_p(v)
    } else if v[0] == 'q' {
        irregular_q(v)
    } else if v[0] == 'r' {
        irregular_r(v)
    } else if v[0] == 's' {
        irregular_s(v)
    } else if v[0] == 't' {
        irregular_t(v)
    } else if v[0] == 'u' {
        irregular_u(v)
    } else if v[0] == 'w' {
        irregular_w(v)
    } else {
        None
    }
}

/// The built-in irregular verbs that start with 'a'.
pub open spec fn irregular_a(v: Seq<char>) -> Option<(Seq<char>, Seq<char>)> {
    if v == "arise"@ { Some(("arises"@, "arose"@)) }
    else if v == "awake"@ { Some(("awakes"@, "awoke"@)) }
    else if v == "arose"@ { Some(("arose"@, "arose"@)) }
    else if v == "awoke"@ { Some(("awoke"@, "awoke"@)) }
    else if v == "ate"@ { Some(("ate"@, "ate"@)) }
    else { None }
}

/// The built-in irregular verbs that start with 'b'.
pub open spec fn irregular_b(v: Seq<char>) -> Option<(Seq<char>, Seq<char>)> {
    if v == "bear"@ { Some(("bears"@, "bore"@)) }
    else if v == "beat"@ { Some(("beats"@, "beat"@)) }
    else if v == "become"@ { Some(("becomes"@, "became"@)) }
    else if v == "begin"@ { Some(("begins"@, "began"@)) }
    else if v == "bend"@ { Some(("bends"@, "bent"@)) }
    else if v == "bind"@ { Some(("binds"@, "bound"@)) }
    else if v == "bite"@ { Some(("bites"@, "bit"@)) }
    else if v == "bleed"@ { Some(("bleeds"@, "bled"@)) }
    else if v == "blow"@ { Some(("blows"@, "blew"@)) }
    else if v == "break"@ { Some(("breaks"@, "broke"@)) }
    else if v == "bring"@ { Some(("brings"@, "brought"@)) }
    else if v == "build"@ { Some(("builds"@, "built"@)) }
    else if v == "burst"@ { Some(("bursts"@, "burst"@)) }
    else if v == "buy"@ { Some(("buys"@, "bought"@)) }
    else if v == "bore"@ { Some(("bore"@, "bore"@)) }
    else if v == "became"@ { Some(("became"@, "became"@)) }
    else if v == "began"@ { Some(("began"@, "began"@)) }
    else if v == "bent"@ { Some(("bent"@, "bent"@)) }
    else if v == "bound"@ { Some(("bound"@, "bound"@)) }
    else if v == "bit"@ { Some(("bit"@, "bit"@)) }
    else if v == "bled"@ { Some(("bled"@, "bled"@)) }
    else if v == "blew"@ { Some(("blew"@, "blew"@)) }
    else if v == "broke"@ { Some(("broke"@, "broke"@)) }
    else if v == "brought"@ { Some(("brought"@, "brought"@)) }
    else if v == "built"@ { Some(("built"@, "built"@)) }
    else if v == "bought"@ { Some(("bought"@, "bought"@)) }
    else { None }
}

/// The built-in irregular verbs that start with 'c'.
pub open spec fn irregular_c(v: Seq<char>) -> Option<(Seq<char>, Seq<char>)> {
    if v == "can"@ { Some(("can"@, "could"@)) }
    else if v == "could"@ { Some(("could"@, "could"@)) }
    else if v == "catch"@ { Some(("catches"@, "caught"@)) }
    else if v == "choose"@ { Some(("chooses"@, "chose"@)) }
    else if v == "cling"@ { Some(("clings"@, "clung"@)) }
    else if v == "come"@ { Some(("comes"@, "came"@)) }
    else if v == "cost"@ { Some(("costs"@, "cost"@)) }
    else if v == "creep"@ { Some(("creeps"@, "crept"@)) }
    else if v == "cut"@ { Some(("cuts"@, "cut"@)) }
    else if v == "caught"@ { Some(("caught"@, "caught"@)) }
    else if v == "chose"@ { Some(("chose"@, "chose"@)) }
    else if v == "clung"@ { Some(("clung"@, "clung"@)) }
    else if v == "came"@ { Some(("came"@, "came"@)) }
    else if v == "crept"@ { Some(("crept"@, "crept"@)) }
    else { None }
}

/// The built-in irregular verbs that start with 'd'.
pub open spec fn irregular_d(v: Seq<char>) -> Option<(Seq<char>, Seq<char>)> {
    if v == "do"@ { Some(("does"@, "did"@)) }
    else if v == "deal"@ { Some(("deals"@, "dealt"@)) }
    else if v == "dig"@ { Some(("digs"@, "dug"@)) }
    else if v == "draw"@ { Some(("draws"@, "drew"@)) }
    else if v == "drink"@ { Some(("drinks"@, "drank"@)) }
    else if v == "drive"@ { Some(("drives"@, "drove"@)) }
    else if v == "dealt"@ { Some(("dealt"@, "dealt"@)) }
    else if v == "dug"@ { Some(("dug"@, "dug"@)) }
    else if v == "drew"@ { Some(("drew"@, "drew"@)) }
    else if v == "drank"@ { Some(("drank"@, "drank"@)) }
    else if v == "drove"@ { Some(("drove"@, "drove"@)) }
    else if v == "did"@ { Some(("did"@, "did"@)) }
    else { None }
}

/// The built-in irregular verbs that start with 'e'.
pub open spec fn irregular_e(v: Seq<char>) -> Option<(Seq<char>, Seq<char>)> {
    if v == "eat"@ { Some(("eats"@, "ate"@)) }
    else { None }
}

/// The built-in irregular verbs that start with 'f'.
pub open spec fn irregular_f(v: Seq<char>) -> Option<(Seq<char>, Seq<char>)> {
    if v == "fall"@ { Some(("falls"@, "fell"@)) }
    else if v == "feed"@ { Some(("feeds"@, "fed"@)) }
    else if v == "feel"@ { Some(("feels"@, "felt"@)) }
    else if v == "fight"@ { Some(("fights"@, "fought"@)) }
    else if v == "find"@ { Some(("finds"@, "found"@)) }
    else if v == "flee"@ { Some(("flees"@, "fled"@)) }
    else if v == "fling"@ { Some(("flings"@, "flung"@)) }
    else if v == "fly"@ { Some(("flies"@, "flew"@)) }
    else if v == "forget"@ { Some(("forgets"@, "forgot"@)) }
    else if v == "forgive"@ { Some(("forgives"@, "forgave"@)) }
    else if v == "freeze"@ { Some(("freezes"@, "froze"@)) }
    else if v == "fell"@ { Some(("fell"@, "fell"@)) }
    else if v == "fed"@ { Some(("fed"@, "fed"@)) }
    else if v == "felt"@ { Some(("felt"@, "felt"@)) }
    else if v == "fought"@ { Some(("fought"@, "fought"@)) }
    else if v == "found"@ { Some(("found"@, "found"@)) }
    else if v == "fled"@ { Some(("fled"@, "fled"@)) }
    else if v == "flung"@ { Some(("flung"@, "flung"@)) }
    else if v == "flew"@ { Some(("flew"@, "flew"@)) }
    else if v == "forgot"@ { Some(("forgot"@, "forgot"@)) }
    else if v == "forgave"@ { Some(("forgave"@, "forgave"@)) }
    else if v == "froze"@ { Some(("froze"@, "froze"@)) }
    else { None }
}

/// The built-in irregular verbs that start with 'g'.
pub open spec fn irregular_g(v: Seq<char>) -> Option<(Seq<char>, Seq<char>)> {
    if v == "go"@ { Some(("goes"@, "went"@)) }
    else if v == "get"@ { Some(("gets"@, "got"@)) }
    else if v == "give"@ { Some(("gives"@, "gave"@)) }
    else if v == "grind"@ { Some(("grinds"@, "ground"@)) }
    else if v == "grow"@ { Some(("grows"@, "grew"@)) }
    else if v == "got"@ { Some(("got"@, "got"@)) }
    else if v == "gave"@ { Some(("gave"@, "gave"@)) }
    else if v == "ground"@ { Some(("ground"@, "ground"@)) }
    else if v == "grew"@ { Some(("grew"@, "grew"@)) }
    else { None }
}

/// The built-in irregular verbs that start with 'h'.
pub open spec fn irregular_h(v: Seq<char>) -> Option<(Seq<char>, Seq<char>)> {
    if v == "have"@ { Some(("has"@, "had"@)) }
    else if v == "hang"@ { Some(("hangs"@, "hung"@)) }
    else if v == "hang(hung)"@ { Some(("hangs"@, "hung"@)) }
    else if v == "hang(hanged)"@ { Some(("hangs"@, "hanged"@)) }
    else if v == "hear"@ { Some(("hears"@, "heard"@)) }
    else if v == "hide"@ { Some(("hides"@, "hid"@)) }
    else if v == "hit"@ { Some(("hits"@, "hit"@)) }
    else if v == "hold"@ { Some(("holds"@, "held"@)) }
    else if v == "hurt"@ { Some(("hurts"@, "hurt"@)) }
    else if v == "hung"@ { Some(("hung"@, "hung"@)) }
    else if v == "heard"@ { Some(("heard"@, "heard"@)) }
    else if v == "hid"@ { Some(("hid"@, "hid"@)) }
    else if v == "held"@ { Some(("held"@, "held"@)) }
    else if v == "had"@ { Some(("had"@, "had"@)) }
    else { None }
}

/// The built-in irregular verbs that start with 'i'.
pub open spec fn irregular_i(v: Seq<char>) -> Option<(Seq<char>, Seq<char>)> {
    if v == "is"@ { Some(("is"@, "was"@)) }
    else { None }
}

/// The built-in irregular verbs that start with 'k'.
pub open spec fn irregular_k(v: Seq<char>) -> Option<(Seq<char>, Seq<char>)> {
    if v == "keep"@ { Some(("keeps"@, "kept"@)) }
    else if v == "kneel"@ { Some(("kneels"@, "knelt"@)) }
    else if v == "know"@ { Some(("knows"@, "knew"@)) }
    else if v == "kept"@ { Some(("kept"@, "kept"@)) }
    else if v == "knelt"@ { Some(("knelt"@, "knelt"@)) }
    else if v == "knew"@ { Some(("knew"@, "knew"@)) }
    else { None }
}

/// The built-in irregular verbs that start with 'l'.
pub open spec fn irregular_l(v: Seq<char>) -> Option<(Seq<char>, Seq<char>)> {
    if v == "lay"@ { Some(("lays"@, "laid"@)) }
    else if v == "lie(lay)"@ { Some(("lies"@, "lay"@)) }
    else if v == "lie(lied)"@ { Some(("lies"@, "lied"@)) }
    else if v == "lead"@ { Some(("leads"@, "led"@)) }
    else if v == "leave"@ { Some(("leaves"@, "left"@)) }
    else if v == "lend"@ { Some(("lends"@, "lent"@)) }
    else if v == "let"@ { Some(("lets"@, "let"@)) }
    else if v == "light"@ { Some(("lights"@, "lit"@)) }
    else if v == "lose"@ { Some(("loses"@, "lost"@)) }
    else if v == "laid"@ { Some(("laid"@, "laid"@)) }
    else if v == "led"@ { Some(("led"@, "led"@)) }
    else if v == "left"@ { Some(("left"@, "left"@)) }
    else if v == "lent"@ { Some(("lent"@, "lent"@)) }
    else if v == "lit"@ { Some(("lit"@, "lit"@)) }
    else if v == "lost"@ { Some(("lost"@, "lost"@)) }
    else { None }
}

/// The built-in irregular verbs that start with 'm'.
pub open spec fn irregular_m(v: Seq<char>) -> Option<(Seq<char>, Seq<char>)> {
    if v == "may"@ { Some(("may"@, "might"@)) }
    else if v == "might"@ { Some(("might"@, "might"@)) }
    else if v == "must"@ { Some(("must"@, "must"@)) }
    else if v == "make"@ { Some(("makes"@, "made"@)) }
    else if v == "mean"@ { Some(("means"@, "meant"@)) }
    else if v == "meet"@ { Some(("meets"@, "met"@)) }
    else if v == "made"@ { Some(("made"@, "made"@)) }
    else if v == "meant"@ { Some(("meant"@, "meant"@)) }
    else if v == "met"@ { Some(("met"@, "met"@)) }
    else { None }
}

/// The built-in irregular verbs that start with 'p'.
pub open spec fn irregular_p(v: Seq<char>) -> Option<(Seq<char>, Seq<char>)> {
    if v == "pay"@ { Some(("pays"@, "paid"@)) }
    else if v == "put"@ { Some(("puts"@, "put"@)) }
    else if v == "paid"@ { Some(("paid"@, "paid"@)) }
    else { None }
}

/// The built-in irregular verbs that start with 'q'.
pub open spec fn irregular_q(v: Seq<char>) -> Option<(Seq<char>, Seq<char>)> {
    if v == "quit"@ { Some(("quits"@, "quit"@)) }
    else { None }
}

/// The built-in irregular verbs that start with 'r'.
pub open spec fn irregular_r(v: Seq<char>) -> Option<(Seq<char>, Seq<char>)> {
    if v == "read"@ { Some(("reads"@, "read"@)) }
    else if v == "ride"@ { Some(("rides"@, "rode"@)) }
    else if v == "ring"@ { Some(("rings"@, "rang"@)) }
    else if v == "rise"@ { Some(("rises"@, "rose"@)) }
    else if v == "run"@ { Some(("runs"@, "ran"@)) }
    else if v == "rode"@ { Some(("rode"@, "rode"@)) }
    else if v == "rang"@ { Some(("rang"@, "rang"@)) }
    else if v == "rose"@ { Some(("rose"@, "rose"@)) }
    else if v == "ran"@ { Some(("ran"@, "ran"@)) }
    else { None }
}

/// The built-in irregular verbs that start with 's'.
pub open spec fn irregular_s(v: Seq<char>) -> Option<(Seq<char>, Seq<char>)> {
    if v == "shall"@ { Some(("shall"@, "should"@)) }
    else if v == "should"@ { Some(("should"@, "should"@)) }
    else if v == "say"@ { Some(("says"@, "said"@)) }
    else if v == "see"@ { Some(("sees"@, "saw"@)) }
    else if v == "seek"@ { Some(("seeks"@, "sought"@)) }
    else if v == "sell"@ { Some(("sells"@, "sold"@)) }
    else if v == "send"@ { Some(("sends"@, "sent"@)) }
    else if v == "set"@ { Some(("sets"@, "set"@)) }
    else if v == "shake"@ { Some(("shakes"@, "shook"@)) }
    else if v == "shine"@ { Some(("shines"@, "shone"@)) }
    else if v == "shoot"@ { Some(("shoots"@, "shot"@)) }
    else if v == "shut"@ { Some(("shuts"@, "shut"@)) }
    else if v == "sing"@ { Some(("sings"@, "sang"@)) }
    else if v == "sink"@ { Some(("sinks"@, "sank"@)) }
    else if v == "sit"@ { Some(("sits"@, "sat"@)) }
    else if v == "slay"@ { Some(("slays"@, "slew"@)) }
    else if v == "sleep"@ { Some(("sleeps"@, "slept"@)) }
    else if v == "slide"@ { Some(("slides"@, "slid"@)) }
    else if v == "sling"@ { Some(("slings"@, "slung"@)) }
    else if v == "speak"@ { Some(("speaks"@, "spoke"@)) }
    else if v == "spend"@ { Some(("spends"@, "spent"@)) }
    else if v == "spin"@ { Some(("spins"@, "spun"@)) }
    else if v == "spit"@ { Some(("spits"@, "spat"@)) }
    else if v == "split"@ { Some(("splits"@, "split"@)) }
    else if v == "spread"@ { Some(("spreads"@, "spread"@)) }
    else if v == "spring"@ { Some(("springs"@, "sprang"@)) }
    else if v == "stand"@ { Some(("stands"@, "stood"@)) }
    else if v == "steal"@ { Some(("steals"@, "stole"@)) }
    else if v == "stick"@ { Some(("sticks"@, "stuck"@)) }
    else if v == "sting"@ { Some(("stings"@, "stung"@)) }
    else if v == "stride"@ { Some(("strides"@, "strode"@)) }
    else if v == "strike"@ { Some(("strikes"@, "struck"@)) }
    else if v == "swear"@ { Some(("swears"@, "swore"@)) }
    else if v == "sweep"@ { Some(("sweeps"@, "swept"@)) }
    else if v == "swim"@ { Some(("swims"@, "swam"@)) }
    else if v == "swing"@ { Some(("swings"@, "swung"@)) }
    else if v == "said"@ { Some(("said"@, "said"@)) }
    else if v == "saw"@ { Some(("saw"@, "saw"@)) }
    else if v == "sought"@ { Some(("sought"@, "sought"@)) }
    else if v == "sold"@ { Some(("sold"@, "sold"@)) }
    else if v == "sent"@ { Some(("sent"@, "sent"@)) }
    else if v == "shook"@ { Some(("shook"@, "shook"@)) }
    else if v == "shone"@ { Some(("shone"@, "shone"@)) }
    else if v == "shot"@ { Some(("shot"@, "shot"@)) }
    else if v == "sang"@ { Some(("sang"@, "sang"@)) }
    else if v == "sank"@ { Some(("sank"@, "sank"@)) }
    else if v == "sat"@ { Some(("sat"@, "sat"@)) }
    else if v == "slew"@ { Some(("slew"@, "slew"@)) }
    else if v == "slept"@ { Some(("slept"@, "slept"@)) }
    else if v == "slid"@ { Some(("slid"@, "slid"@)) }
    else if v == "slung"@ { Some(("slung"@, "slung"@)) }
    else if v == "spoke"@ { Some(("spoke"@, "spoke"@)) }
    else if v == "spent"@ { Some(("spent"@, "spent"@)) }
    else if v == "spun"@ { Some(("spun"@, "spun"@)) }
    else if v == "spat"@ { Some(("spat"@, "spat"@)) }
    else if v == "sprang"@ { Some(("sprang"@, "sprang"@)) }
    else if v == "stood"@ { Some(("stood"@, "stood"@)) }
    else if v == "stole"@ { Some(("stole"@, "stole"@)) }
    else if v == "stuck"@ { Some(("stuck"@, "stuck"@)) }
    else if v == "stung"@ { Some(("stung"@, "stung"@)) }
    else if v == "strode"@ { Some(("strode"@, "strode"@)) }
    else if v == "struck"@ { Some(("struck"@, "struck"@)) }
    else if v == "swore"@ { Some(("swore"@, "swore"@)) }
    else if v == "swept"@ { Some(("swept"@, "swept"@)) }
    else if v == "swam"@ { Some(("swam"@, "swam"@)) }
    else if v == "swung"@ { Some(("swung"@, "swung"@)) }
    else { None }
}

/// The built-in irregular verbs that start with 't'.
pub open spec fn irregular_t(v: Seq<char>) -> Option<(Seq<char>, Seq<char>)> {
    if v == "take"@ { Some(("takes"@, "took"@)) }
    else if v == "teach"@ { Some(("teaches"@, "taught"@)) }
    else if v == "tear"@ { Some(("tears"@, "tore"@)) }
    else if v == "tell"@ { Some(("tells"@, "told"@)) }
    else if v == "think"@ { Some(("thinks"@, "thought"@)) }
    else if v == "throw"@ { Some(("throws"@, "threw"@)) }
    else if v == "took"@ { Some(("took"@, "took"@)) }
    else if v == "taught"@ { Some(("taught"@, "taught"@)) }
    else if v == "tore"@ { Some(("tore"@, "tore"@)) }
    else if v == "told"@ { Some(("told"@, "told"@)) }
    else if v == "thought"@ { Some(("thought"@, "thought"@)) }
    else if v == "threw"@ { Some(("threw"@, "threw"@)) }
    else { None }
}

/// The built-in irregular verbs that start with 'u'.
pub open spec fn irregular_u(v: Seq<char>) -> Option<(Seq<char>, Seq<char>)> {
    if v == "understand"@ { Some(("understands"@, "understood"@)) }
    else if v == "understood"@ { Some(("understood"@, "understood"@)) }
    else { None }
}

/// The built-in irregular verbs that start with 'w'.
pub open spec fn irregular_w(v: Seq<char>) -> Option<(Seq<char>, Seq<char>)> {
    if v == "will"@ { Some(("will"@, "would"@)) }
    else if v == "would"@ { Some(("would"@, "would"@)) }
    else if v == "was"@ { Some(("was"@, "was"@)) }
    else if v == "wake"@ { Some(("wakes"@, "woke"@)) }
    else if v == "wear"@ { Some(("wears"@, "wore"@)) }
    else if v == "weave"@ { Some(("weaves"@, "wove"@)) }
    else if v == "weep"@ { Some(("weeps"@, "wept"@)) }
    else if v == "win"@ { Some(("wins"@, "won"@)) }
    else if v == "wind"@ { Some(("winds"@, "wound"@)) }
    else if v == "write"@ { Some(("writes"@, "wrote"@)) }
    else if v == "woke"@ { Some(("woke"@, "woke"@)) }
    else if v == "wore"@ { Some(("wore"@, "wore"@)) }
    else if v == "wove"@ { Some(("wove"@, "wove"@)) }
    else if v == "wept"@ { Some(("wept"@, "wept"@)) }
    else if v == "won"@ { Some(("won"@, "won"@)) }
    else if v == "wound"@ { Some(("wound"@, "wound"@)) }
    else if v == "wrote"@ { Some(("wrote"@, "wrote"@)) }
    else if v == "went"@ { Some(("went"@, "went"@)) }
    else { None }
}

fn irregular_a_exec(v: &Vec<char>) -> (r: Option<(&'static str, &'static str)>)
    ensures
        match r {
            Some((a, b)) => irregular_a(v@) == Some((a@, b@)),
            None => irregular_a(v@) is None,
        },
{
    if eq_lit(v, "arise") { Some(("arises", "arose")) }
    else if eq_lit(v, "awake") { Some(("awakes", "awoke")) }
    else if eq_lit(v, "arose") { Some(("arose", "arose")) }
    else if eq_lit(v, "awoke") { Some(("awoke", "awoke")) }
    else if eq_lit(v, "ate") { Some(("ate", "ate")) }
    else { None }
}

fn irregular_b_exec(v: &Vec<char>) -> (r: Option<(&'static str, &'static str)>)
    ensures
        match r {
            Some((a, b)) => irregular_b(v@) == Some((a@, b@)),
            None => irregular_b(v@) is None,
        },
{
    if eq_lit(v, "bear") { Some(("bears", "bore")) }
    else if eq_lit(v, "beat") { Some(("beats", "beat")) }
    else if eq_lit(v, "become") { Some(("becomes", "became")) }
    else if eq_lit(v, "begin") { Some(("begins", "began")) }
    else if eq_lit(v, "bend") { Some(("bends", "bent")) }
    else if eq_lit(v, "bind") { Some(("binds", "bound")) }
    else if eq_lit(v, "bite") { Some(("bites", "bit")) }
    else if eq_lit(v, "bleed") { Some(("bleeds", "bled")) }
    else if eq_lit(v, "blow") { Some(("blows", "blew")) }
    else if eq_lit(v, "break") { Some(("breaks", "broke")) }
    else if eq_lit(v, "bring") { Some(("brings", "brought")) }
    else if eq_lit(v, "build") { Some(("builds", "built")) }
    else if eq_lit(v, "burst") { Some(("bursts", "burst")) }
    else if eq_lit(v, "buy") { Some(("buys", "bought")) }
    else if eq_lit(v, "bore") { Some(("bore", "bore")) }
    else if eq_lit(v, "became") { Some(("became", "became")) }
    else if eq_lit(v, "began") { Some(("began", "began")) }
    else if eq_lit(v, "bent") { Some(("bent", "bent")) }
    else if eq_lit(v, "bound") { Some(("bound", "bound")) }
    else if eq_lit(v, "bit") { Some(("bit", "bit")) }
    else if eq_lit(v, "bled") { Some(("bled", "bled")) }
    else if eq_lit(v, "blew") { Some(("blew", "blew")) }
    else if eq_lit(v, "broke") { Some(("broke", "broke")) }
    else if eq_lit(v, "brought") { Some(("brought", "brought")) }
    else if eq_lit(v, "built") { Some(("built", "built")) }
    else if eq_lit(v, "bought") { Some(("bought", "bought")) }
    else { None }
}

fn irregular_c_exec(v: &Vec<char>) -> (r: Option<(&'static str, &'static str)>)
    ensures
        match r {
            Some((a, b)) => irregular_c(v@) == Some((a@, b@)),
            None => irregular_c(v@) is None,
        },
{
    if eq_lit(v, "can") { Some(("can", "could")) }
    else if eq_lit(v, "could") { Some(("could", "could")) }
    else if eq_lit(v, "catch") { Some(("catches", "caught")) }
    else if eq_lit(v, "choose") { Some(("chooses", "chose")) }
    else if eq_lit(v, "cling") { Some(("clings", "clung")) }
    else if eq_lit(v, "come") { Some(("comes", "came")) }
    else if eq_lit(v, "cost") { Some(("costs", "cost")) }
    else if eq_lit(v, "creep") { Some(("creeps", "crept")) }
    else if eq_lit(v, "cut") { Some(("cuts", "cut")) }
    else if eq_lit(v, "caught") { Some(("caught", "caught")) }
    else if eq_lit(v, "chose") { Some(("chose", "chose")) }
    else if eq_lit(v, "clung") { Some(("clung", "clung")) }
    else if eq_lit(v, "came") { Some(("came", "came")) }
    else if eq_lit(v, "crept") { Some(("crept", "crept")) }
    else { None }
}

fn irregular_d_exec(v: &Vec<char>) -> (r: Option<(&'static str, &'static str)>)
    ensures
        match r {
            Some((a, b)) => irregular_d(v@) == Some((a@, b@)),
            None => irregular_d(v@) is None,
        },
{
    if eq_lit(v, "do") { Some(("does", "did")) }
    else if eq_lit(v, "deal") { Some(("deals", "dealt")) }
    else if eq_lit(v, "dig") { Some(("digs", "dug")) }
    else if eq_lit(v, "draw") { Some(("draws", "drew")) }
    else if eq_lit(v, "drink") { Some(("drinks", "drank")) }
    else if eq_lit(v, "drive") { Some(("drives", "drove")) }
    else if eq_lit(v, "dealt") { Some(("dealt", "dealt")) }
    else if eq_lit(v, "dug") { Some(("dug", "dug")) }
    else if eq_lit(v, "drew") { Some(("drew", "drew")) }
    else if eq_lit(v, "drank") { Some(("drank", "drank")) }
    else if eq_lit(v, "drove") { Some(("drove", "drove")) }
    else if eq_lit(v, "did") { Some(("did", "did")) }
    else { None }
}

fn irregular_e_exec(v: &Vec<char>) -> (r: Option<(&'static str, &'static str)>)
    ensures
        match r {
            Some((a, b)) => irregular_e(v@) == Some((a@, b@)),
            None => irregular_e(v@) is None,
        },
{
    if eq_lit(v, "eat") { Some(("eats", "ate")) }
    else { None }
}

fn irregular_f_exec(v: &Vec<char>) -> (r: Option<(&'static str, &'static str)>)
    ensures
        match r {
            Some((a, b)) => irregular_f(v@) == Some((a@, b@)),
            None => irregular_f(v@) is None,
        },
{
    if eq_lit(v, "fall") { Some(("falls", "fell")) }
    else if eq_lit(v, "feed") { Some(("feeds", "fed")) }
    else if eq_lit(v, "feel") { Some(("feels", "felt")) }
    else if eq_lit(v, "fight") { Some(("fights", "fought")) }
    else if eq_lit(v, "find") { Some(("finds", "found")) }
    else if eq_lit(v, "flee") { Some(("flees", "fled")) }
    else if eq_lit(v, "fling") { Some(("flings", "flung")) }
    else if eq_lit(v, "fly") { Some(("flies", "flew")) }
    else if eq_lit(v, "forget") { Some(("forgets", "forgot")) }
    else if eq_lit(v, "forgive") { Some(("forgives", "forgave")) }
    else if eq_lit(v, "freeze") { Some(("freezes", "froze")) }
    else if eq_lit(v, "fell") { Some(("fell", "fell")) }
    else if eq_lit(v, "fed") { Some(("fed", "fed")) }
    else if eq_lit(v, "felt") { Some(("felt", "felt")) }
    else if eq_lit(v, "fought") { Some(("fought", "fought")) }
    else if eq_lit(v, "found") { Some(("found", "found")) }
    else if eq_lit(v, "fled") { Some(("fled", "fled")) }
    else if eq_lit(v, "flung") { Some(("flung", "flung")) }
    else if eq_lit(v, "flew") { Some(("flew", "flew")) }
    else if eq_lit(v, "forgot") { Some(("forgot", "forgot")) }
    else if eq_lit(v, "forgave") { Some(("forgave", "forgave")) }
    else if eq_lit(v, "froze") { Some(("froze", "froze")) }
    else { None }
}

fn irregular_g_exec(v: &Vec<char>) -> (r: Option<(&'static str, &'static str)>)
    ensures
        match r {
            Some((a, b)) => irregular_g(v@) == Some((a@, b@)),
            None => irregular_g(v@) is None,
        },
{
    if eq_lit(v, "go") { Some(("goes", "went")) }
    else if eq_lit(v, "get") { Some(("gets", "got")) }
    else if eq_lit(v, "give") { Some(("gives", "gave")) }
    else if eq_lit(v, "grind") { Some(("grinds", "ground")) }
    else if eq_lit(v, "grow") { Some(("grows", "grew")) }
    else if eq_lit(v, "got") { Some(("got", "got")) }
    else if eq_lit(v, "gave") { Some(("gave", "gave")) }
    else if eq_lit(v, "ground") { Some(("ground", "ground")) }
    else if eq_lit(v, "grew") { Some(("grew", "grew")) }
    else { None }
}

fn irregular_h_exec(v: &Vec<char>) -> (r: Option<(&'static str, &'static str)>)
    ensures
        match r {
            Some((a, b)) => irregular_h(v@) == Some((a@, b@)),
            None => irregular_h(v@) is None,
        },
{
    if eq_lit(v, "have") { Some(("has", "had")) }
    else if eq_lit(v, "hang") { Some(("hangs", "hung")) }
    else if eq_lit(v, "hang(hung)") { Some(("hangs", "hung")) }
    else if eq_lit(v, "hang(hanged)") { Some(("hangs", "hanged")) }
    else if eq_lit(v, "hear") { Some(("hears", "heard")) }
    else if eq_lit(v, "hide") { Some(("hides", "hid")) }
    else if eq_lit(v, "hit") { Some(("hits", "hit")) }
    else if eq_lit(v, "hold") { Some(("holds", "held")) }
    else if eq_lit(v, "hurt") { Some(("hurts", "hurt")) }
    else if eq_lit(v, "hung") { Some(("hung", "hung")) }
    else if eq_lit(v, "heard") { Some(("heard", "heard")) }
    else if eq_lit(v, "hid") { Some(("hid", "hid")) }
    else if eq_lit(v, "held") { Some(("held", "held")) }
    else if eq_lit(v, "had") { Some(("had", "had")) }
    else { None }
}

fn irregular_i_exec(v: &Vec<char>) -> (r: Option<(&'static str, &'static str)>)
    ensures
        match r {
            Some((a, b)) => irregular_i(v@) == Some((a@, b@)),
            None => irregular_i(v@) is None,
        },
{
    if eq_lit(v, "is") { Some(("is", "was")) }
    else { None }
}

fn irregular_k_exec(v: &Vec<char>) -> (r: Option<(&'static str, &'static str)>)
    ensures
        match r {
            Some((a, b)) => irregular_k(v@) == Some((a@, b@)),
            None => irregular_k(v@) is None,
        },
{
    if eq_lit(v, "keep") { Some(("keeps", "kept")) }
    else if eq_lit(v, "kneel") { Some(("kneels", "knelt")) }
    else if eq_lit(v, "know") { Some(("knows", "knew")) }
    else if eq_lit(v, "kept") { Some(("kept", "kept")) }
    else if eq_lit(v, "knelt") { Some(("knelt", "knelt")) }
    else if eq_lit(v, "knew") { Some(("knew", "knew")) }
    else { None }
}

fn irregular_l_exec(v: &Vec<char>) -> (r: Option<(&'static str, &'static str)>)
    ensures
        match r {
            Some((a, b)) => irregular_l(v@) == Some((a@, b@)),
            None => irregular_l(v@) is None,
        },
{
    if eq_lit(v, "lay") { Some(("lays", "laid")) }
    else if eq_lit(v, "lie(lay)") { Some(("lies", "lay")) }
    else if eq_lit(v, "lie(lied)") { Some(("lies", "lied")) }
    else if eq_lit(v, "lead") { Some(("leads", "led")) }
    else if eq_lit(v, "leave") { Some(("leaves", "left")) }
    else if eq_lit(v, "lend") { Some(("lends", "lent")) }
    else if eq_lit(v, "let") { Some(("lets", "let")) }
    else if eq_lit(v, "light") { Some(("lights", "lit")) }
    else if eq_lit(v, "lose") { Some(("loses", "lost")) }
    else if eq_lit(v, "laid") { Some(("laid", "laid")) }
    else if eq_lit(v, "led") { Some(("led", "led")) }
    else if eq_lit(v, "left") { Some(("left", "left")) }
    else if eq_lit(v, "lent") { Some(("lent", "lent")) }
    else if eq_lit(v, "lit") { Some(("lit", "lit")) }
    else if eq_lit(v, "lost") { Some(("lost", "lost")) }
    else { None }
}

fn irregular_m_exec(v: &Vec<char>) -> (r: Option<(&'static str, &'static str)>)
    ensures
        match r {
            Some((a, b)) => irregular_m(v@) == Some((a@, b@)),
            None => irregular_m(v@) is None,
        },
{
    if eq_lit(v, "may") { Some(("may", "might")) }
    else if eq_lit(v, "might") { Some(("might", "might")) }
    else if eq_lit(v, "must") { Some(("must", "must")) }
    else if eq_lit(v, "make") { Some(("makes", "made")) }
    else if eq_lit(v, "mean") { Some(("means", "meant")) }
    else if eq_lit(v, "meet") { Some(("meets", "met")) }
    else if eq_lit(v, "made") { Some(("made", "made")) }
    else if eq_lit(v, "meant") { Some(("meant", "meant")) }
    else if eq_lit(v, "met") { Some(("met", "met")) }
    else { None }
}

fn irregular_p_exec(v: &Vec<char>) -> (r: Option<(&'static str, &'static str)>)
    ensures
        match r {
            Some((a, b)) => irregular_p(v@) == Some((a@, b@)),
            None => irregular_p(v@) is None,
        },
{
    if eq_lit(v, "pay") { Some(("pays", "paid")) }
    else if eq_lit(v, "put") { Some(("puts", "put")) }
    else if eq_lit(v, "paid") { Some(("paid", "paid")) }
    else { None }
}

fn irregular_q_exec(v: &Vec<char>) -> (r: Option<(&'static str, &'static str)>)
    ensures
        match r {
            Some((a, b)) => irregular_q(v@) == Some((a@, b@)),
            None => irregular_q(v@) is None,
        },
{
    if eq_lit(v, "quit") { Some(("quits", "quit")) }
    else { None }
}

fn irregular_r_exec(v: &Vec<char>) -> (r: Option<(&'static str, &'static str)>)
    ensures
        match r {
            Some((a, b)) => irregular_r(v@) == Some((a@, b@)),
            None => irregular_r(v@) is None,
        },
{
    if eq_lit(v, "read") { Some(("reads", "read")) }
    else if eq_lit(v, "ride") { Some(("rides", "rode")) }
    else if eq_lit(v, "ring") { Some(("rings", "rang")) }
    else if eq_lit(v, "rise") { Some(("rises", "rose")) }
    else if eq_lit(v, "run") { Some(("runs", "ran")) }
    else if eq_lit(v, "rode") { Some(("rode", "rode")) }
    else if eq_lit(v, "rang") { Some(("rang", "rang")) }
    else if eq_lit(v, "rose") { Some(("rose", "rose")) }
    else if eq_lit(v, "ran") { Some(("ran", "ran")) }
    else { None }
}

fn irregular_s_exec(v: &Vec<char>) -> (r: Option<(&'static str, &'static str)>)
    ensures
        match r {
            Some((a, b)) => irregular_s(v@) == Some((a@, b@)),
            None => irregular_s(v@) is None,
        },
{
    if eq_lit(v, "shall") { Some(("shall", "should")) }
    else if eq_lit(v, "should") { Some(("should", "should")) }
    else if eq_lit(v, "say") { Some(("says", "said")) }
    else if eq_lit(v, "see") { Some(("sees", "saw")) }
    else if eq_lit(v, "seek") { Some(("seeks", "sought")) }
    else if eq_lit(v, "sell") { Some(("sells", "sold")) }
    else if eq_lit(v, "send") { Some(("sends", "sent")) }
    else if eq_lit(v, "set") { Some(("sets", "set")) }
    else if eq_lit(v, "shake") { Some(("shakes", "shook")) }
    else if eq_lit(v, "shine") { Some(("shines", "shone")) }
    else if eq_lit(v, "shoot") { Some(("shoots", "shot")) }
    else if eq_lit(v, "shut") { Some(("shuts", "shut")) }
    else if eq_lit(v, "sing") { Some(("sings", "sang")) }
    else if eq_lit(v, "sink") { Some(("sinks", "sank")) }
    else if eq_lit(v, "sit") { Some(("sits", "sat")) }
    else if eq_lit(v, "slay") { Some(("slays", "slew")) }
    else if eq_lit(v, "sleep") { Some(("sleeps", "slept")) }
    else if eq_lit(v, "slide") { Some(("slides", "slid")) }
    else if eq_lit(v, "sling") { Some(("slings", "slung")) }
    else if eq_lit(v, "speak") { Some(("speaks", "spoke")) }
    else if eq_lit(v, "spend") { Some(("spends", "spent")) }
    else if eq_lit(v, "spin") { Some(("spins", "spun")) }
    else if eq_lit(v, "spit") { Some(("spits", "spat")) }
    else if eq_lit(v, "split") { Some(("splits", "split")) }
    else if eq_lit(v, "spread") { Some(("spreads", "spread")) }
    else if eq_lit(v, "spring") { Some(("springs", "sprang")) }
    else if eq_lit(v, "stand") { Some(("stands", "stood")) }
    else if eq_lit(v, "steal") { Some(("steals", "stole")) }
    else if eq_lit(v, "stick") { Some(("sticks", "stuck")) }
    else if eq_lit(v, "sting") { Some(("stings", "stung")) }
    else if eq_lit(v, "stride") { Some(("strides", "strode")) }
    else if eq_lit(v, "strike") { Some(("strikes", "struck")) }
    else if eq_lit(v, "swear") { Some(("swears", "swore")) }
    else if eq_lit(v, "sweep") { Some(("sweeps", "swept")) }
    else if eq_lit(v, "swim") { Some(("swims", "swam")) }
    else if eq_lit(v, "swing") { Some(("swings", "swung")) }
    else if eq_lit(v, "said") { Some(("said", "said")) }
    else if eq_lit(v, "saw") { Some(("saw", "saw")) }
    else if eq_lit(v, "sought") { Some(("sought", "sought")) }
    else if eq_lit(v, "sold") { Some(("sold", "sold")) }
    else if eq_lit(v, "sent") { Some(("sent", "sent")) }
    else if eq_lit(v, "shook") { Some(("shook", "shook")) }
    else if eq_lit(v, "shone") { Some(("shone", "shone")) }
    else if eq_lit(v, "shot") { Some(("shot", "shot")) }
    else if eq_lit(v, "sang") { Some(("sang", "sang")) }
    else if eq_lit(v, "sank") { Some(("sank", "sank")) }
    else if eq_lit(v, "sat") { Some(("sat", "sat")) }
    else if eq_lit(v, "slew") { Some(("slew", "slew")) }
    else if eq_lit(v, "slept") { Some(("slept", "slept")) }
    else if eq_lit(v, "slid") { Some(("slid", "slid")) }
    else if eq_lit(v, "slung") { Some(("slung", "slung")) }
    else if eq_lit(v, "spoke") { Some(("spoke", "spoke")) }
    else if eq_lit(v, "spent") { Some(("spent", "spent")) }
    else if eq_lit(v, "spun") { Some(("spun", "spun")) }
    else if eq_lit(v, "spat") { Some(("spat", "spat")) }
    else if eq_lit(v, "sprang") { Some(("sprang", "sprang")) }
    else if eq_lit(v, "stood") { Some(("stood", "stood")) }
    else if eq_lit(v, "stole") { Some(("stole", "stole")) }
    else if eq_lit(v, "stuck") { Some(("stuck", "stuck")) }
    else if eq_lit(v, "stung") { Some(("stung", "stung")) }
    else if eq_lit(v, "strode") { Some(("strode", "strode")) }
    else if eq_lit(v, "struck") { Some(("struck", "struck")) }
    else if eq_lit(v, "swore") { Some(("swore", "swore")) }
    else if eq_lit(v, "swept") { Some(("swept", "swept")) }
    else if eq_lit(v, "swam") { Some(("swam", "swam")) }
    else if eq_lit(v, "swung") { Some(("swung", "swung")) }
    else { None }
}

fn irregular_t_exec(v: &Vec<char>) -> (r: Option<(&'static str, &'static str)>)
    ensures
        match r {
            Some((a, b)) => irregular_t(v@) == Some((a@, b@)),
            None => irregular_t(v@) is None,
        },
{
    if eq_lit(v, "take") { Some(("takes", "took")) }
    else if eq_lit(v, "teach") { Some(("teaches", "taught")) }
    else if eq_lit(v, "tear") { Some(("tears", "tore")) }
    else if eq_lit(v, "tell") { Some(("tells", "told")) }
    else if eq_lit(v, "think") { Some(("thinks", "thought")) }
    else if eq_lit(v, "throw") { Some(("throws", "threw")) }
    else if eq_lit(v, "took") { Some(("took", "took")) }
    else if eq_lit(v, "taught") { Some(("taught", "taught")) }
    else if eq_lit(v, "tore") { Some(("tore", "tore")) }
    else if eq_lit(v, "told") { Some(("told", "told")) }
    else if eq_lit(v, "thought") { Some(("thought", "thought")) }
    else if eq_lit(v, "threw") { Some(("threw", "threw")) }
    else { None }
}

fn irregular_u_exec(v: &Vec<char>) -> (r: Option<(&'static str, &'static str)>)
    ensures
        match r {
            Some((a, b)) => irregular_u(v@) == Some((a@, b@)),
            None => irregular_u(v@) is None,
        },
{
    if eq_lit(v, "understand") { Some(("understands", "understood")) }
    else if eq_lit(v, "understood") { Some(("understood", "understood")) }
    else { None }
}

fn irregular_w_exec(v: &Vec<char>) -> (r: Option<(&'static str, &'static str)>)
    ensures
        match r {
            Some((a, b)) => irregular_w(v@) == Some((a@, b@)),
            None => irregular_w(v@) is None,
        },
{
    if eq_lit(v, "will") { Some(("will", "would")) }
    else if eq_lit(v, "would") { Some(("would", "would")) }
    else if eq_lit(v, "was") { Some(("was", "was")) }
    else if eq_lit(v, "wake") { Some(("wakes", "woke")) }
    else if eq_lit(v, "wear") { Some(("wears", "wore")) }
    else if eq_lit(v, "weave") { Some(("weaves", "wove")) }
    else if eq_lit(v, "weep") { Some(("weeps", "wept")) }
    else if eq_lit(v, "win") { Some(("wins", "won")) }
    else if eq_lit(v, "wind") { Some(("winds", "wound")) }
    else if eq_lit(v, "write") { Some(("writes", "wrote")) }
    else if eq_lit(v, "woke") { Some(("woke", "woke")) }
    else if eq_lit(v, "wore") { Some(("wore", "wore")) }
    else if eq_lit(v, "wove") { Some(("wove", "wove")) }
    else if eq_lit(v, "wept") { Some(("wept", "wept")) }
    else if eq_lit(v, "won") { Some(("won", "won")) }
    else if eq_lit(v, "wound") { Some(("wound", "wound")) }
    else if eq_lit(v, "wrote") { Some(("wrote", "wrote")) }
    else if eq_lit(v, "went") { Some(("went", "went")) }
    else { None }
}

fn static_irregular_exec(v: &Vec<char>) -> (r: Option<(&'static str, &'static str)>)
    ensures
        match r {
            Some((a, b)) => static_irregular(v@) == Some((a@, b@)),
            None => static_irregular(v@) is None,
        },
{
    if v.len() == 0 {
        None
    } else if v[0] == 'a' {
        irregular_a_exec(v)
    } else if v[0] == 'b' {
        irregular_b_exec(v)
    } else if v[0] == 'c' {
        irregular_c_exec(v)
    } else if v[0] == 'd' {
        irregular_d_exec(v)
    } else if v[0] == 'e' {
        irregular_e_exec(v)
    } else if v[0] == 'f' {
        irregular_f_exec(v)
    } else if v[0] == 'g' {
        irregular_g_exec(v)
    } else if v[0] == 'h' {
        irregular_h_exec(v)
    } else if v[0] == 'i' {
        irregular_i_exec(v)
    } else if v[0] == 'k' {
        irregular_k_exec(v)
    } else if v[0] == 'l' {
        irregular_l_exec(v)
    } else if v[0] == 'm' {
        irregular_m_exec(v)
    } else if v[0] == 'p' {
        irregular_p_exec(v)
    } else if v[0] == 'q' {
        irregular_q_exec(v)
    } else if v[0] == 'r' {
        irregular_r_exec(v)
    } else if v[0] == 's' {
        irregular_s_exec(v)
    } else if v[0] == 't' {
        irregular_t_exec(v)
    } else if v[0] == 'u' {
        irregular_u_exec(v)
    } else if v[0] == 'w' {
        irregular_w_exec(v)
    } else {
        None
    }
}


fn eq_lit(v: &Vec<char>, lit: &str) -> (r: bool)
    ensures
        r == (v@ == lit@),
{
    let l = chars_of(lit);
    chars_eq(v, &l)
}

/// Modal verbs, which are never stacked with "will" in the future tense.
pub open spec fn is_modal(v: Seq<char>) -> bool {
    ||| v == "can"@
    ||| v == "could"@
    ||| v == "may"@
    ||| v == "might"@
    ||| v == "must"@
    ||| v == "shall"@
    ||| v == "should"@
    ||| v == "will"@
    ||| v == "would"@
    ||| v == "ought"@
    ||| v == "ought to"@
}

fn is_modal_exec(v: &Vec<char>) -> (r: bool)
    ensures
        r == is_modal(v@),
{
    eq_lit(v, "can") || eq_lit(v, "could") || eq_lit(v, "may") || eq_lit(v, "might") || eq_lit(
        v,
        "must",
    ) || eq_lit(v, "shall") || eq_lit(v, "should") || eq_lit(v, "will") || eq_lit(v, "would")
        || eq_lit(v, "ought") || eq_lit(v, "ought to")
}

/// A vowel letter.
pub open spec fn is_vowel(c: char) -> bool {
    c == 'a' || c == 'e' || c == 'i' || c == 'o' || c == 'u'
}

/// The verb's second-to-last letter is a vowel ("play", "obey").
pub open spec fn vowel_before_y(v: Seq<char>) -> bool {
    v.len() >= 2 && is_vowel(v[v.len() - 2])
}

/// The verb ends in a consonant followed by "y" ("carry", "fly").
pub open spec fn consonant_y(lower: Seq<char>) -> bool {
    lower.len() > 1 && lower.last() == 'y' && !vowel_before_y(lower)
}

/// The original-case verb without its final letter, when that letter is ASCII.
pub open spec fn without_final_y(orig: Seq<char>) -> Seq<char> {
    if orig.len() > 0 && is_ascii_char(orig.last()) {
        orig.drop_last()
    } else {
        orig
    }
}

/// The regular third-person present form ("carries", "watches", "walks").
pub open spec fn regular_present(orig: Seq<char>, lower: Seq<char>) -> Seq<char> {
    if consonant_y(lower) {
        without_final_y(orig) + "ies"@
    } else if ends_with(lower, seq!['c', 'h']) || ends_with(lower, seq!['s', 'h']) || (lower.len()
        > 0 && (lower.last() == 's' || lower.last() == 'x' || lower.last() == 'z' || lower.last()
        == 'o')) {
        orig + "es"@
    } else {
        orig + "s"@
    }
}

/// The regular past form ("smiled", "carried", "walked").
pub open spec fn regular_past(orig: Seq<char>, lower: Seq<char>) -> Seq<char> {
    if lower.len() > 0 && lower.last() == 'e' {
        orig + "d"@
    } else if consonant_y(lower) {
        without_final_y(orig) + "ied"@
    } else {
        orig + "ed"@
    }
}

fn vowel_before_y_exec(v: &Vec<char>) -> (r: bool)
    ensures
        r == vowel_before_y(v@),
{
    if v.len() < 2 {
        return false;
    }
    let c = v[v.len() - 2];
    c == 'a' || c == 'e' || c == 'i' || c == 'o' || c == 'u'
}

fn consonant_y_exec(lower: &Vec<char>) -> (r: bool)
    ensures
        r == consonant_y(lower@),
{
    lower.len() > 1 && lower[lower.len() - 1] == 'y' && !vowel_before_y_exec(lower)
}

fn without_final_y_exec(orig: &Vec<char>) -> (r: Vec<char>)
    ensures
        r@ == without_final_y(orig@),
{
    if orig.len() > 0 && (orig[orig.len() - 1] as u32) < 128 {
        subrange_of(orig, 0, orig.len() - 1)
    } else {
        orig.clone()
    }
}

fn conjugate_regular_verb(orig: &Vec<char>, lower: &Vec<char>) -> (r: Vec<char>)
    ensures
        r@ == regular_present(orig@, lower@),
{
    if consonant_y_exec(lower) {
        let mut r = without_final_y_exec(orig);
        append_str(&mut r, "ies");
        return r;
    }
    let ch = vec!['c', 'h'];
    let sh = vec!['s', 'h'];
    let n = lower.len();
    let mut r = orig.clone();
    if chars_ends_with(lower, &ch) || chars_ends_with(lower, &sh) || (n > 0 && (lower[n - 1] == 's'
        || lower[n - 1] == 'x' || lower[n - 1] == 'z' || lower[n - 1] == 'o')) {
        append_str(&mut r, "es");
    } else {
        append_str(&mut r, "s");
    }
    r
}

fn conjugate_regular_past_verb(orig: &Vec<char>, lower: &Vec<char>) -> (r: Vec<char>)
    ensures
        r@ == regular_past(orig@, lower@),
{
    let n = lower.len();
    if n > 0 && lower[n - 1] == 'e' {
        let mut r = orig.clone();
        append_str(&mut r, "d");
        r
    } else if consonant_y_exec(lower) {
        let mut r = without_final_y_exec(orig);
        append_str(&mut r, "ied");
        r
    } else {
        let mut r = orig.clone();
        append_str(&mut r, "ed");
        r
    }
}

/// Picks the present or past form for a tense.
pub open spec fn form_for(forms: (Seq<char>, Seq<char>), tense: Tense) -> Seq<char> {
    if tense == Tense::Past { forms.1 } else { forms.0 }
}

/// The conjugated first word of a phrasal verb ("freak out" -> "freaks").
pub open spec fn conjugated_head(fwo: Seq<char>, fwl: Seq<char>, cap: bool, tense: Tense, custom: Map<Seq<char>, (Seq<char>, Seq<char>)>) -> Seq<char> {
    if custom.contains_key(fwl) {
        formatted_verb(form_for(custom[fwl], tense), cap)
    } else if static_irregular(fwl) is Some {
        formatted_verb(form_for(static_irregular(fwl)->0, tense), cap)
    } else if tense == Tense::Past {
        capitalized_if(regular_past(fwo, fwl), cap)
    } else {
        capitalized_if(regular_present(fwo, fwl), cap)
    }
}

/// A verb conjugated for the person, number, stance and tense of its subject, consulting the
/// runtime dictionary `custom` before the built-in table and the regular rules.
pub open spec fn conjugation(
    orig0: Seq<char>,
    lower0: Seq<char>,
    cap: bool,
    is_viewer: bool,
    is_plural: bool,
    stance: ActorStance,
    tense: Tense,
    custom: Map<Seq<char>, (Seq<char>, Seq<char>)>,
) -> Seq<char> {
    let aux = lower0 == "do(aux)"@;
    if aux && tense == Tense::Future {
        if cap { "Will"@ } else { "will"@ }
    } else {
        let orig = if aux { if cap { "Do"@ } else { "do"@ } } else { orig0 };
        let lower = if aux { "do"@ } else { lower0 };
        let fps = is_viewer && stance == ActorStance::FirstPerson && !is_plural;
        if tense == Tense::Future {
            if is_modal(lower) {
                formatted_verb(orig, cap)
            } else if orig.len() > 0 {
                (if cap { "Will "@ } else { "will "@ }) + char_lowercase(orig[0]) + orig.drop_first()
            } else {
                if cap { "Will"@ } else { "will"@ }
            }
        } else if lower == "be"@ {
            if tense == Tense::Past {
                if fps || (!is_viewer && !is_plural) {
                    formatted_verb("was"@, cap)
                } else {
                    formatted_verb("were"@, cap)
                }
            } else if fps {
                formatted_verb("am"@, cap)
            } else if is_viewer || is_plural {
                formatted_verb("are"@, cap)
            } else {
                formatted_verb("is"@, cap)
            }
        } else if tense == Tense::Present && (is_viewer || is_plural) {
            capitalized_if(orig, cap)
        } else if custom.contains_key(lower) {
            formatted_verb(form_for(custom[lower], tense), cap)
        } else if static_irregular(lower) is Some {
            formatted_verb(form_for(static_irregular(lower)->0, tense), cap)
        } else if find(orig, seq![' ']) is Some && find(lower, seq![' ']) is Some {
            let io = find(orig, seq![' '])->0;
            let il = find(lower, seq![' '])->0;
            conjugated_head(orig.take(io), lower.take(il), cap, tense, custom) + seq![' '] + orig.skip(io + 1)
        } else if tense == Tense::Past {
            capitalized_if(regular_past(orig, lower), cap)
        } else {
            capitalized_if(regular_present(orig, lower), cap)
        }
    }
}

fn format_verb_chars(verb: &Vec<char>, cap: bool) -> (r: Vec<char>)
    ensures
        r@ == formatted_verb(verb@, cap),
{
    if cap { capitalize_chars(verb) } else { verb.clone() }
}

fn conjugated_head_exec(fwo: &Vec<char>, fwl: &Vec<char>, cap: bool, tense: Tense, custom: &VerbDictionary) -> (r: Vec<char>)
    ensures
        r@ == conjugated_head(fwo@, fwl@, cap, tense, custom.map()),
{
    if let Some((present, past)) = custom.lookup(fwl) {
        let w = if tense == Tense::Past { chars_of(past.as_str()) } else { chars_of(present.as_str()) };
        return format_verb_chars(&w, cap);
    }
    if let Some((present, past)) = static_irregular_exec(fwl) {
        let w = if tense == Tense::Past { chars_of(past) } else { chars_of(present) };
        return format_verb_chars(&w, cap);
    }
    if tense == Tense::Past {
        let w = conjugate_regular_past_verb(fwo, fwl);
        capitalize_chars_if(&w, cap)
    } else {
        let w = conjugate_regular_verb(fwo, fwl);
        capitalize_chars_if(&w, cap)
    }
}

/// Conjugates a verb for its subject's person and number and for the tense.
///
/// `original_verb` is the verb as written in the template and `lower_verb` its lower-cased
/// form; `custom` is the runtime irregular-verb dictionary.
pub fn conjugate_verb(
    original_verb: &str,
    lower_verb: &str,
    is_capitalized: bool,
    is_viewer: bool,
    is_plural: bool,
    stance: ActorStance,
    tense: Tense,
    custom: &VerbDictionary,
) -> (r: String)
    ensures
        r@ == conjugation(
            original_verb@,
            lower_verb@,
            is_capitalized,
            is_viewer,
            is_plural,
            stance,
            tense,
            custom.map(),
        ),
{
    let cap = is_capitalized;
    let lower0 = chars_of(lower_verb);
    let aux = eq_lit(&lower0, "do(aux)");
    if aux && tense == Tense::Future {
        return if cap { String::from_str("Will") } else { String::from_str("will") };
    }
    let orig = if aux {
        if cap { chars_of("Do") } else { chars_of("do") }
    } else {
        chars_of(original_verb)
    };
    let lower = if aux { chars_of("do") } else { lower0 };
    let fps = is_viewer && stance == ActorStance::FirstPerson && !is_plural;
    let out: Vec<char> = if tense == Tense::Future {
        if is_modal_exec(&lower) {
            format_verb_chars(&orig, cap)
        } else if orig.len() > 0 {
            let mut o = if cap { chars_of("Will ") } else { chars_of("will ") };
            let first = char_to_lowercase(orig[0]);
            append_chars(&mut o, &first);
            let rest = subrange_of(&orig, 1, orig.len());
            append_chars(&mut o, &rest);
            assert(orig@.drop_first() =~= orig@.subrange(1, orig.len() as int));
            o
        } else if cap {
            chars_of("Will")
        } else {
            chars_of("will")
        }
    } else if eq_lit(&lower, "be") {
        let w = if tense == Tense::Past {
            if fps || (!is_viewer && !is_plural) { chars_of("was") } else { chars_of("were") }
        } else if fps {
            chars_of("am")
        } else if is_viewer || is_plural {
            chars_of("are")
        } else {
            chars_of("is")
        };
        format_verb_chars(&w, cap)
    } else if tense == Tense::Present && (is_viewer || is_plural) {
        capitalize_chars_if(&orig, cap)
    } else if let Some((present, past)) = custom.lookup(&lower) {
        let w = if tense == Tense::Past { chars_of(past.as_str()) } else { chars_of(present.as_str()) };
        format_verb_chars(&w, cap)
    } else if let Some((present, past)) = static_irregular_exec(&lower) {
        let w = if tense == Tense::Past { chars_of(past) } else { chars_of(present) };
        format_verb_chars(&w, cap)
    } else {
        let space = vec![' '];
        assert(space@ =~= seq![' ']);
        let fo = chars_find_from(&orig, &space, 0);
        let fl = chars_find_from(&lower, &space, 0);
        if fo.is_some() && fl.is_some() {
            let io = fo.unwrap();
            let il = fl.unwrap();
            proof {
                lemma_find_bounds(orig@, space@, 0);
                lemma_find_bounds(lower@, space@, 0);
                assert(space@.len() == 1);
                assert(find_from(orig@, space@, 0) == Some(io as int));
                assert(io + 1 <= orig.len());
                assert(il + 1 <= lower.len());
            }
            let fwo = subrange_of(&orig, 0, io);
            let fwl = subrange_of(&lower, 0, il);
            let mut o = conjugated_head_exec(&fwo, &fwl, cap, tense, custom);
            o.push(' ');
            let rest = subrange_of(&orig, io + 1, orig.len());
            append_chars(&mut o, &rest);
            assert(orig@.take(io as int) =~= fwo@);
            assert(lower@.take(il as int) =~= fwl@);
            assert(orig@.skip(io + 1) =~= rest@);
            o
        } else if tense == Tense::Past {
            let w = conjugate_regular_past_verb(&orig, &lower);
            capitalize_chars_if(&w, cap)
        } else {
            let w = conjugate_regular_verb(&orig, &lower);
            capitalize_chars_if(&w, cap)
        }
    };
    string_of(&out)
}

// ---------------------------------------------------------------------------
// Articles
// ---------------------------------------------------------------------------

/// What `in_definite::get_a_or_an` returns for a word.
pub uninterp spec fn a_or_an(word: Seq<char>) -> Seq<char>;

/// Whether the first word of a text, as `in_definite` splits it, is empty: the trimmed text
/// starts with one of the separators `,` `.` `-` `;` `:` `'` (or a space).
pub open spec fn splits_first_word(word: Seq<char>) -> bool {
    let t = trim(word);
    t.len() > 0 && (t[0] == ' ' || t[0] == ',' || t[0] == '.' || t[0] == '-' || t[0] == ';' || t[0] == ':' || t[0] == '\'')
}

/// Dynamically returns "a" or "an" based on the pronunciation of the following word.
///
/// Calls `in_definite::get_a_or_an`. Its result is named `a_or_an`; by that crate's source it
/// is one of "a", "an", "A", "An", and it is empty exactly for a blank word. That crate takes
/// the first letter of the first word, which does not exist when the trimmed word starts with
/// one of its word separators, so such a word is left out.
#[verifier::external_body]
pub fn get_indefinite_article(word: &str) -> (r: String)
    requires
        !splits_first_word(word@),
    ensures
        r@ == a_or_an(word@),
        r@ == "a"@ || r@ == "an"@ || r@ == "A"@ || r@ == "An"@ || r@ == Seq::<char>::empty(),
        (trim(word@).len() == 0) == (r@ == Seq::<char>::empty()),
{
    in_definite::get_a_or_an(word).to_string()
}

/// The indefinite article of a word (see `a_or_an`), or nothing for a word whose first word
/// is empty (see `splits_first_word`).
pub open spec fn indefinite_of(word: Seq<char>) -> Seq<char> {
    if splits_first_word(word) { seq![] } else { a_or_an(word) }
}

/// Whether the first word of a text is empty (see `splits_first_word`).
pub fn first_word_is_empty(word: &str) -> (r: bool)
    ensures
        r == splits_first_word(word@),
{
    let t = chars_trim(&chars_of(word));
    t.len() > 0 && (t[0] == ' ' || t[0] == ',' || t[0] == '.' || t[0] == '-' || t[0] == ';' || t[0] == ':' || t[0] == '\'')
}

/// The indefinite article of a word (see `indefinite_of`).
fn indefinite_article(word: &str) -> (r: String)
    ensures
        r@ == indefinite_of(word@),
{
    if first_word_is_empty(word) {
        String::new()
    } else {
        get_indefinite_article(word)
    }
}

/// Options that steer article resolution.
#[derive(Clone, Copy, Debug, PartialEq, Eq, Structural)]
pub struct ArticleFlags {
    /// The entity is a proper noun (normally suppresses articles).
    pub is_proper_noun: bool,
    /// The entity is plural (modifies indefinite articles).
    pub is_plural: bool,
    /// The builder explicitly forced the article to render.
    pub force_article: bool,
    /// The article directly follows a possessive word (normally suppresses articles).
    pub after_possessive: bool,
    /// The article should be capitalised.
    pub is_capitalized: bool,
}

/// `a` equals the literal `lit` up to ASCII case.
pub open spec fn eq_ic(a: Seq<char>, lit: Seq<char>) -> bool {
    eq_ignore_ascii_case(a, lit)
}

/// The ordinal prefix that replaces an article for an entity that shares its name with
/// others ("a third ", "the second set of ").
pub open spec fn ordinal_article(base: Seq<char>, ord: nat, coll: Option<Seq<char>>, thr: nat, f: ArticleFlags) -> Seq<char> {
    let w = ordinal_word(ord, thr);
    let g = match coll { Some(c) => c, None => "set"@ };
    let prefix = ordinal_prefix(base, w, g, f);
    if f.is_capitalized && !f.after_possessive { capitalized(prefix) } else { prefix }
}

/// The uncapitalised ordinal prefix built from the ordinal word `w` and group word `g`.
pub open spec fn ordinal_prefix(base: Seq<char>, w: Seq<char>, g: Seq<char>, f: ArticleFlags) -> Seq<char> {
    let tail = w + " "@ + g + " of "@;
    if f.after_possessive {
        if f.is_plural { tail } else { w + " "@ }
    } else if f.is_plural {
        if eq_ic(base, "some"@) || base.len() == 0 {
            indefinite_of(w) + " "@ + tail
        } else if eq_ic(base, "these"@) || eq_ic(base, "this"@) {
            "this "@ + tail
        } else if eq_ic(base, "those"@) || eq_ic(base, "that"@) {
            "that "@ + tail
        } else if eq_ic(base, "one"@) || eq_ic(base, "one of"@) || eq_ic(base, "one of the"@) {
            "one of the "@ + tail
        } else {
            base + " "@ + tail
        }
    } else if base.len() == 0 {
        indefinite_of(w) + " "@ + w + " "@
    } else {
        base + " "@ + w + " "@
    }
}

/// The base word that an article keeps in its ordinal form, when the ordinal form applies.
pub open spec fn ordinal_base(article: Seq<char>, ord: nat, f: ArticleFlags) -> Option<Seq<char>> {
    if eq_ic(article, "a"@) || eq_ic(article, "an"@) {
        if ord > 2 { Some(if f.is_plural { "some"@ } else { seq![] }) } else { None }
    } else if eq_ic(article, "another"@) {
        if f.is_plural || ord > 2 || f.after_possessive { Some(seq![]) } else { None }
    } else if eq_ic(article, "the"@) {
        Some("the"@)
    } else if eq_ic(article, "this"@) {
        Some("this"@)
    } else if eq_ic(article, "that"@) {
        Some("that"@)
    } else if eq_ic(article, "one"@) {
        Some("one"@)
    } else if eq_ic(article, "one of"@) || eq_ic(article, "one of the"@) {
        Some("one of the"@)
    } else if eq_ic(article, "some"@) {
        Some("some"@)
    } else {
        None
    }
}

/// The plain article text (with its trailing space) for a name.
pub open spec fn plain_article(article: Seq<char>, name: Seq<char>, cap: bool, f: ArticleFlags) -> Option<Seq<char>> {
    if eq_ic(article, "a"@) || eq_ic(article, "an"@) {
        if f.is_plural {
            Some(if cap { "Some "@ } else { "some "@ })
        } else if splits_first_word(name) {
            None
        } else if a_or_an(name) == "an"@ {
            Some(if cap { "An "@ } else { "an "@ })
        } else {
            Some(if cap { "A "@ } else { "a "@ })
        }
    } else if eq_ic(article, "the"@) {
        Some(if cap { "The "@ } else { "the "@ })
    } else if eq_ic(article, "this"@) {
        if f.is_plural { Some(if cap { "These "@ } else { "these "@ }) }
        else { Some(if cap { "This "@ } else { "this "@ }) }
    } else if eq_ic(article, "that"@) {
        if f.is_plural { Some(if cap { "Those "@ } else { "those "@ }) }
        else { Some(if cap { "That "@ } else { "that "@ }) }
    } else if eq_ic(article, "another"@) {
        if f.is_plural { Some(if cap { "Other "@ } else { "other "@ }) }
        else { Some(if cap { "Another "@ } else { "another "@ }) }
    } else if eq_ic(article, "one"@) {
        Some(if cap { "One "@ } else { "one "@ })
    } else if eq_ic(article, "one of"@) || eq_ic(article, "one of the"@) {
        Some(if cap { "One of the "@ } else { "one of the "@ })
    } else if eq_ic(article, "some"@) {
        Some(if cap { "Some "@ } else { "some "@ })
    } else {
        None
    }
}

/// The article (with a trailing space) to print before an entity's name, or `None` when the
/// article is suppressed (proper nouns, after a possessive) or unknown.
pub open spec fn article_resolution(
    article: Seq<char>,
    name: Seq<char>,
    ordinal: Option<nat>,
    coll: Option<Seq<char>>,
    thr: nat,
    flags: ArticleFlags,
) -> Option<Seq<char>> {
    if flags.is_proper_noun && !flags.force_article {
        None
    } else {
        let upper = article.len() > 0 && char_has_uppercase_property(article[0]);
        let cap = flags.is_capitalized || upper;
        let f = ArticleFlags {
            after_possessive: if flags.force_article { false } else { flags.after_possessive },
            is_capitalized: cap,
            ..flags
        };
        if ordinal is Some && ordinal_base(article, ordinal->0, f) is Some {
            Some(ordinal_article(ordinal_base(article, ordinal->0, f)->0, ordinal->0, coll, thr, f))
        } else if f.after_possessive {
            None
        } else {
            plain_article(article, name, cap, f)
        }
    }
}

fn ic(a: &Vec<char>, lit: &str) -> (r: bool)
    ensures
        r == eq_ic(a@, lit@),
{
    let l = chars_of(lit);
    chars_eq_ignore_ascii_case(a, &l)
}

fn prefix_then(head: Vec<char>, tail: &Vec<char>) -> (r: Vec<char>)
    ensures
        r@ == head@ + tail@,
{
    let mut h = head;
    append_chars(&mut h, tail);
    h
}

fn ordinal_prefix_exec(base: &Vec<char>, ws: &str, g: &Vec<char>, f: ArticleFlags) -> (r: Vec<char>)
    ensures
        r@ == ordinal_prefix(base@, ws@, g@, f),
{
    let w = chars_of(ws);
    let mut tail = w.clone();
    append_str(&mut tail, " ");
    append_chars(&mut tail, g);
    append_str(&mut tail, " of ");
    assert(tail@ =~= w@ + " "@ + g@ + " of "@);
    if f.after_possessive {
        if f.is_plural {
            tail
        } else {
            let mut p = w.clone();
            append_str(&mut p, " ");
            p
        }
    } else if f.is_plural {
        if ic(base, "some") || base.len() == 0 {
            let a = indefinite_article(ws);
            let mut p = chars_of(a.as_str());
            append_str(&mut p, " ");
            let r = prefix_then(p, &tail);
            assert(r@ =~= indefinite_of(ws@) + " "@ + tail@);
            r
        } else if ic(base, "these") || ic(base, "this") {
            prefix_then(chars_of("this "), &tail)
        } else if ic(base, "those") || ic(base, "that") {
            prefix_then(chars_of("that "), &tail)
        } else if ic(base, "one") || ic(base, "one of") || ic(base, "one of the") {
            prefix_then(chars_of("one of the "), &tail)
        } else {
            let mut p = base.clone();
            append_str(&mut p, " ");
            let r = prefix_then(p, &tail);
            assert(r@ =~= base@ + " "@ + tail@);
            r
        }
    } else if base.len() == 0 {
        let a = indefinite_article(ws);
        let mut p = chars_of(a.as_str());
        append_str(&mut p, " ");
        append_chars(&mut p, &w);
        append_str(&mut p, " ");
        p
    } else {
        let mut p = base.clone();
        append_str(&mut p, " ");
        append_chars(&mut p, &w);
        append_str(&mut p, " ");
        p
    }
}

fn apply_ordinal_article(base: &Vec<char>, ord: usize, coll: Option<&str>, thr: usize, f: ArticleFlags) -> (r: Vec<char>)
    ensures
        r@ == ordinal_article(base@, ord as nat, match coll { Some(c) => Some(c@), None => None }, thr as nat, f),
{
    let ws = number_to_ordinal_word(ord, thr);
    let g = match coll {
        Some(c) => chars_of(c),
        None => chars_of("set"),
    };
    let prefix = ordinal_prefix_exec(base, ws.as_str(), &g, f);
    if f.is_capitalized && !f.after_possessive {
        capitalize_chars(&prefix)
    } else {
        prefix
    }
}

fn ordinal_base_exec(article: &Vec<char>, ord: usize, f: ArticleFlags) -> (r: Option<Vec<char>>)
    ensures
        match r {
            Some(b) => ordinal_base(article@, ord as nat, f) == Some(b@),
            None => ordinal_base(article@, ord as nat, f) is None,
        },
{
    if ic(article, "a") || ic(article, "an") {
        if ord > 2 {
            Some(if f.is_plural { chars_of("some") } else { Vec::new() })
        } else {
            None
        }
    } else if ic(article, "another") {
        if f.is_plural || ord > 2 || f.after_possessive { Some(Vec::new()) } else { None }
    } else if ic(article, "the") {
        Some(chars_of("the"))
    } else if ic(article, "this") {
        Some(chars_of("this"))
    } else if ic(article, "that") {
        Some(chars_of("that"))
    } else if ic(article, "one") {
        Some(chars_of("one"))
    } else if ic(article, "one of") || ic(article, "one of the") {
        Some(chars_of("one of the"))
    } else if ic(article, "some") {
        Some(chars_of("some"))
    } else {
        None
    }
}

fn lit_or(cap: bool, upper: &str, lower: &str) -> (r: Vec<char>)
    ensures
        r@ == (if cap { upper@ } else { lower@ }),
{
    if cap { chars_of(upper) } else { chars_of(lower) }
}

fn plain_article_exec(article: &Vec<char>, name: &str, cap: bool, f: ArticleFlags) -> (r: Option<Vec<char>>)
    ensures
        match r {
            Some(v) => plain_article(article@, name@, cap, f) == Some(v@),
            None => plain_article(article@, name@, cap, f) is None,
        },
{
    if ic(article, "a") || ic(article, "an") {
        if f.is_plural {
            Some(lit_or(cap, "Some ", "some "))
        } else if first_word_is_empty(name) {
            None
        } else {
            let a = get_indefinite_article(name);
            let av = chars_of(a.as_str());
            if eq_lit(&av, "an") {
                Some(lit_or(cap, "An ", "an "))
            } else {
                Some(lit_or(cap, "A ", "a "))
            }
        }
    } else if ic(article, "the") {
        Some(lit_or(cap, "The ", "the "))
    } else if ic(article, "this") {
        if f.is_plural { Some(lit_or(cap, "These ", "these ")) } else { Some(lit_or(cap, "This ", "this ")) }
    } else if ic(article, "that") {
        if f.is_plural { Some(lit_or(cap, "Those ", "those ")) } else { Some(lit_or(cap, "That ", "that ")) }
    } else if ic(article, "another") {
        if f.is_plural { Some(lit_or(cap, "Other ", "other ")) } else { Some(lit_or(cap, "Another ", "another ")) }
    } else if ic(article, "one") {
        Some(lit_or(cap, "One ", "one "))
    } else if ic(article, "one of") || ic(article, "one of the") {
        Some(lit_or(cap, "One of the ", "one of the "))
    } else if ic(article, "some") {
        Some(lit_or(cap, "Some ", "some "))
    } else {
        None
    }
}

/// Resolves the article (definite or indefinite) for an entity, handling proper-noun
/// suppression, plural adaptation and ordinal forms ("a third wolf").
///
/// The returned text includes a trailing space (e.g. `"The "`, `"a "`).
pub fn resolve_article(
    article: &str,
    entity_name: &str,
    ordinal: Option<usize>,
    collective_noun: Option<&str>,
    current_threshold: usize,
    flags: ArticleFlags,
) -> (r: Option<String>)
    ensures
        match r {
            Some(s) => article_resolution(
                article@,
                entity_name@,
                match ordinal { Some(o) => Some(o as nat), None => None },
                match collective_noun { Some(c) => Some(c@), None => None },
                current_threshold as nat,
                flags,
            ) == Some(s@),
            None => article_resolution(
                article@,
                entity_name@,
                match ordinal { Some(o) => Some(o as nat), None => None },
                match collective_noun { Some(c) => Some(c@), None => None },
                current_threshold as nat,
                flags,
            ) is None,
        },
{
    if flags.is_proper_noun && !flags.force_article {
        return None;
    }
    let art = chars_of(article);
    let upper = art.len() > 0 && char_is_uppercase(art[0]);
    let cap = flags.is_capitalized || upper;
    let f = ArticleFlags {
        after_possessive: if flags.force_article { false } else { flags.after_possessive },
        is_capitalized: cap,
        ..flags
    };
    if let Some(ord) = ordinal {
        if let Some(base) = ordinal_base_exec(&art, ord, f) {
            let p = apply_ordinal_article(&base, ord, collective_noun, current_threshold, f);
            return Some(string_of(&p));
        }
    }
    if f.after_possessive {
        return None;
    }
    match plain_article_exec(&art, entity_name, cap, f) {
        Some(v) => Some(string_of(&v)),
        None => None,
    }
}

} // verus!
