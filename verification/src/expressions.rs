//! The conditions of `{% if ... %}` blocks: their tokens, and the expressions built from them.
use vstd::prelude::*;
use crate::parser::{byte_offset, lemma_unicode_escape_len, unicode_escape, unicode_escape_exec, utf8_len};
use crate::text::{
    ascii_lower, char_ascii_lower, append_chars, append_str, char_is_white, chars_eq, chars_find_from, chars_of, decimal, find, find_from,
    is_white, last_char_index, lemma_find_bounds, rfind_char, str_to_lowercase, string_of, subrange_of,
    unicode_lowercase, usize_to_string,
};

verus! {

// ---------------------------------------------------------------------------
// Numbers
// ---------------------------------------------------------------------------

/// Whether a character is a decimal digit.
pub open spec fn is_digit(c: char) -> bool {
    '0' <= c && c <= '9'
}

/// The ASCII lower case of a text.
pub open spec fn ascii_lowered(s: Seq<char>) -> Seq<char> {
    s.map_values(|c: char| ascii_lower(c))
}

/// The mantissa of a number: digits with at most one '.', and at least one digit.
pub open spec fn is_mantissa(m: Seq<char>) -> bool {
    &&& forall|k: int| 0 <= k < m.len() ==> is_digit(#[trigger] m[k]) || m[k] == '.'
    &&& forall|k: int, l: int| 0 <= k < l < m.len() ==> !(#[trigger] m[k] == '.' && #[trigger] m[l] == '.')
    &&& exists|k: int| 0 <= k < m.len() && is_digit(#[trigger] m[k])
}

/// An exponent after the 'e': an optional sign and at least one digit.
pub open spec fn is_exponent(x: Seq<char>) -> bool {
    all_digits(unsigned(x))
}

/// A text without its leading sign, if it has one.
pub open spec fn unsigned(x: Seq<char>) -> Seq<char> {
    if x.len() > 0 && (x[0] == '+' || x[0] == '-') { x.drop_first() } else { x }
}

/// Whether a text is one or more decimal digits.
pub open spec fn all_digits(d: Seq<char>) -> bool {
    d.len() > 0 && forall|k: int| 0 <= k < d.len() ==> is_digit(#[trigger] d[k])
}

/// Whether a text reads as a floating-point number, by the grammar that the standard library
/// documents for `f64::from_str` (letters in either case): an optional sign, then "inf",
/// "infinity", "nan", or a mantissa with an optional exponent.
pub open spec fn float_literal(s: Seq<char>) -> bool {
    let l = ascii_lowered(s);
    let b = unsigned(l);
    ||| b == "inf"@
    ||| b == "infinity"@
    ||| b == "nan"@
    ||| match find(b, seq!['e']) {
        Some(e) => is_mantissa(b.take(e)) && is_exponent(b.skip(e + 1)),
        None => is_mantissa(b),
    }
}

/// Whether the characters from `lo` to `hi` are digits with at most one '.' and at least one
/// digit (see `is_mantissa`).
fn mantissa_exec(v: &Vec<char>, lo: usize, hi: usize) -> (r: bool)
    requires
        lo <= hi <= v.len(),
    ensures
        r == is_mantissa(v@.subrange(lo as int, hi as int)),
{
    let ghost m = v@.subrange(lo as int, hi as int);
    let mut dot: Option<usize> = None;
    let mut digit = false;
    let mut i = lo;
    while i < hi
        invariant
            lo <= i <= hi <= v.len(),
            m == v@.subrange(lo as int, hi as int),
            forall|k: int| 0 <= k < i - lo ==> is_digit(#[trigger] m[k]) || m[k] == '.',
            match dot {
                Some(d) => lo <= d < i && m[d - lo] == '.' && forall|k: int| 0 <= k < i - lo && k != d - lo ==> #[trigger] m[k] != '.',
                None => forall|k: int| 0 <= k < i - lo ==> #[trigger] m[k] != '.',
            },
            digit == exists|k: int| 0 <= k < i - lo && is_digit(#[trigger] m[k]),
        decreases hi - i,
    {
        let c = v[i];
        assert(m[i - lo] == c);
        if '0' <= c && c <= '9' {
            digit = true;
        } else if c == '.' {
            match dot {
                Some(d) => {
                    assert(m[d - lo] == '.' && m[i - lo] == '.');
                    return false;
                },
                None => {
                    dot = Some(i);
                },
            }
        } else {
            assert(!(is_digit(m[i - lo]) || m[i - lo] == '.'));
            return false;
        }
        i = i + 1;
        proof {
            if digit {
                if is_digit(c) {
                    assert(is_digit(m[i - 1 - lo]));
                }
            }
        }
    }
    proof {
        assert forall|k: int, l: int| 0 <= k < l < m.len() implies !(#[trigger] m[k] == '.' && #[trigger] m[l] == '.') by {
            match dot {
                Some(d) => {},
                None => {},
            }
        }
    }
    digit
}

/// Whether the characters from `lo` to the end are an exponent (see `is_exponent`).
fn exponent_exec(v: &Vec<char>, lo: usize) -> (r: bool)
    requires
        lo <= v.len(),
    ensures
        r == is_exponent(v@.skip(lo as int)),
{
    let ghost x = v@.skip(lo as int);
    let start = if lo < v.len() && (v[lo] == '+' || v[lo] == '-') { lo + 1 } else { lo };
    let ghost d = unsigned(x);
    assert(d =~= v@.skip(start as int));
    if start == v.len() {
        return false;
    }
    let mut i = start;
    while i < v.len()
        invariant
            start <= i <= v.len(),
            lo <= v.len(),
            d == v@.skip(start as int),
            d == unsigned(v@.skip(lo as int)),
            forall|k: int| 0 <= k < i - start ==> is_digit(#[trigger] d[k]),
        decreases v.len() - i,
    {
        assert(d[i - start] == v[i as int]);
        if !('0' <= v[i] && v[i] <= '9') {
            assert(!is_digit(d[i - start]));
            return false;
        }
        i = i + 1;
    }
    true
}

/// Whether a text reads as a floating-point number (see `float_literal`).
pub fn is_float_literal(s: &str) -> (r: bool)
    ensures
        r == float_literal(s@),
{
    let cs = chars_of(s);
    let mut l: Vec<char> = Vec::new();
    let mut i: usize = 0;
    while i < cs.len()
        invariant
            i <= cs.len(),
            cs@ == s@,
            l@ == ascii_lowered(cs@.take(i as int)),
        decreases cs.len() - i,
    {
        let c = cs[i];
        let lc = char_ascii_lower(c);
        l.push(lc);
        assert(ascii_lowered(cs@.take(i + 1)) =~= ascii_lowered(cs@.take(i as int)).push(lc));
        i = i + 1;
    }
    assert(cs@.take(i as int) =~= cs@);
    let start: usize = if l.len() > 0 && (l[0] == '+' || l[0] == '-') { 1 } else { 0 };
    let b = subrange_of(&l, start, l.len());
    let ghost lv = ascii_lowered(s@);
    assert(b@ =~= unsigned(lv));
    if chars_eq(&b, &chars_of("inf")) || chars_eq(&b, &chars_of("infinity")) || chars_eq(&b, &chars_of("nan")) {
        return true;
    }
    let e = vec!['e'];
    assert(e@ =~= seq!['e']);
    match chars_find_from(&b, &e, 0) {
        Some(k) => {
            proof {
                lemma_find_bounds(b@, e@, 0);
            }
            assert(b@.subrange(0, k as int) =~= b@.take(k as int));
            mantissa_exec(&b, 0, k) && exponent_exec(&b, k + 1)
        },
        None => {
            assert(b@.subrange(0, b.len() as int) =~= b@);
            mantissa_exec(&b, 0, b.len())
        },
    }
}

// ---------------------------------------------------------------------------
// Tokens of a condition
// ---------------------------------------------------------------------------

/// A value in a condition.
#[derive(Debug, Clone, PartialEq)]
pub enum ConditionValue {
    /// A literal text (e.g. `"raining"`).
    Literal(String),
    /// A number, as written; it reads as a floating-point number (see `float_literal`).
    Number(String),
    /// A context variable (e.g. `$weather`), lower-cased, without its '$'.
    Variable(String),
    /// An entity property (e.g. `source.color`): the entity key, lower-cased, and the property.
    EntityProperty(String, String),
}

/// The plain-value model of a condition value.
pub enum ValueModel {
    /// A literal text.
    Literal(Seq<char>),
    /// A number as written.
    Number(Seq<char>),
    /// A variable.
    Variable(Seq<char>),
    /// An entity and a property.
    EntityProperty(Seq<char>, Seq<char>),
}

/// The model of a condition value.
pub open spec fn value_model(v: ConditionValue) -> ValueModel {
    match v {
        ConditionValue::Literal(s) => ValueModel::Literal(s@),
        ConditionValue::Number(s) => ValueModel::Number(s@),
        ConditionValue::Variable(s) => ValueModel::Variable(s@),
        ConditionValue::EntityProperty(e, p) => ValueModel::EntityProperty(e@, p@),
    }
}

/// A token of a condition.
#[derive(Debug, Clone, PartialEq)]
pub enum ExprToken {
    /// `&&` or `and`.
    And,
    /// `||` or `or`.
    Or,
    /// `!` or `not`.
    Not,
    /// `(`.
    LParen,
    /// `)`.
    RParen,
    /// `==`.
    Eq,
    /// `!=`.
    NotEq,
    /// `>`.
    Gt,
    /// `<`.
    Lt,
    /// `>=`.
    GtEq,
    /// `<=`.
    LtEq,
    /// A value.
    Val(ConditionValue),
}

/// The plain-value model of a token.
pub enum TokModel {
    /// `&&`.
    And,
    /// `||`.
    Or,
    /// `!`.
    Not,
    /// `(`.
    LParen,
    /// `)`.
    RParen,
    /// `==`.
    Eq,
    /// `!=`.
    NotEq,
    /// `>`.
    Gt,
    /// `<`.
    Lt,
    /// `>=`.
    GtEq,
    /// `<=`.
    LtEq,
    /// A value.
    Val(ValueModel),
}

/// The model of a token.
pub open spec fn tok_model(t: ExprToken) -> TokModel {
    match t {
        ExprToken::And => TokModel::And,
        ExprToken::Or => TokModel::Or,
        ExprToken::Not => TokModel::Not,
        ExprToken::LParen => TokModel::LParen,
        ExprToken::RParen => TokModel::RParen,
        ExprToken::Eq => TokModel::Eq,
        ExprToken::NotEq => TokModel::NotEq,
        ExprToken::Gt => TokModel::Gt,
        ExprToken::Lt => TokModel::Lt,
        ExprToken::GtEq => TokModel::GtEq,
        ExprToken::LtEq => TokModel::LtEq,
        ExprToken::Val(v) => TokModel::Val(value_model(v)),
    }
}

/// The models of a list of tokens.
pub open spec fn toks_model(ts: Seq<ExprToken>) -> Seq<TokModel> {
    ts.map_values(|t: ExprToken| tok_model(t))
}

/// Whether a character ends a bare word: white space or one of `()=!<>&|"'`.
pub open spec fn ends_word(c: char) -> bool {
    is_white(c) || c == '(' || c == ')' || c == '=' || c == '!' || c == '<' || c == '>' || c == '&'
        || c == '|' || c == '"' || c == '\''
}

/// The position where the word starting at `i` ends.
pub open spec fn word_end(s: Seq<char>, i: int) -> int
    decreases s.len() - i,
{
    if i >= s.len() || ends_word(s[i]) { i } else { word_end(s, i + 1) }
}

/// The position of the first backquote at or after `i`, or the end.
pub open spec fn backquote_end(s: Seq<char>, i: int) -> int
    decreases s.len() - i,
{
    if i >= s.len() || s[i] == '`' { i } else { backquote_end(s, i + 1) }
}

/// The text of a quoted literal from `i` (after the opening quote `q`) and the position after
/// its closing quote (the end when it is unclosed). A backslash escapes the next character:
/// `\n`, `\r`, `\t`, `\u{...}` stand for their characters, any other for itself, and a final
/// lone backslash for nothing.
pub open spec fn quoted(s: Seq<char>, i: int, q: char) -> (Seq<char>, int)
    decreases s.len() - i,
{
    if i < 0 || i >= s.len() {
        (seq![], s.len() as int)
    } else if s[i] == '\\' {
        if i + 1 >= s.len() {
            (seq![], s.len() as int)
        } else {
            let e = s[i + 1];
            if e == 'u' {
                let (out, rest) = unicode_escape(s.skip(i + 2));
                proof {
                    lemma_unicode_escape_len(s.skip(i + 2));
                }
                let next = s.len() - rest.len();
                let (t, j) = quoted(s, next, q);
                (out + t, j)
            } else {
                let c = if e == 'n' { '\n' } else if e == 'r' { '\r' } else if e == 't' { '\t' } else { e };
                let (t, j) = quoted(s, i + 2, q);
                (seq![c] + t, j)
            }
        }
    } else if s[i] == q {
        (seq![], i + 1)
    } else {
        let (t, j) = quoted(s, i + 1, q);
        (seq![s[i]] + t, j)
    }
}

/// The token of a bare word: `and`, `or`, `not` in any case are operators; `true` and
/// `false` are literals; a number stays as written; `$name` is a variable (lower-cased);
/// `entity.property` is a property (the entity lower-cased); anything else is a literal.
pub open spec fn word_token(w: Seq<char>) -> TokModel {
    let low = unicode_lowercase(w);
    if low == "and"@ {
        TokModel::And
    } else if low == "or"@ {
        TokModel::Or
    } else if low == "not"@ {
        TokModel::Not
    } else if low == "true"@ || low == "false"@ {
        TokModel::Val(ValueModel::Literal(w))
    } else if float_literal(w) {
        TokModel::Val(ValueModel::Number(w))
    } else if w.len() > 0 && w[0] == '$' {
        TokModel::Val(ValueModel::Variable(unicode_lowercase(w.drop_first())))
    } else {
        match last_char_index(w, '.') {
            Some(k) => TokModel::Val(ValueModel::EntityProperty(unicode_lowercase(w.take(k)), w.skip(k + 1))),
            None => TokModel::Val(ValueModel::Literal(w)),
        }
    }
}

/// `t` before the tokens of `r`, or the error of `r`.
pub open spec fn then_toks(t: Seq<TokModel>, r: Result<Seq<TokModel>, Seq<char>>) -> Result<Seq<TokModel>, Seq<char>> {
    match r {
        Ok(ts) => Ok(t + ts),
        Err(e) => Err(e),
    }
}

/// The error for an operator whose second character is missing.
pub open spec fn expected_at(op: Seq<char>, s: Seq<char>, i: int) -> Seq<char> {
    "Expected '"@ + op + "' at index "@ + decimal(utf8_len(s.take(i)))
}

/// The tokens of a condition from position `i`. White space separates tokens; `(`, `)`,
/// `==`, `!=`, `!`, `>=`, `>`, `<=`, `<`, `&&` and `||` are operators (a lone `=`, `&` or `|`
/// is an error naming its byte index); a backquoted text or a quoted text (see `quoted`) is a
/// literal; anything else is a bare word (see `word_token`).
pub open spec fn expr_tokens(s: Seq<char>, i: int) -> Result<Seq<TokModel>, Seq<char>>
    decreases s.len() - i,
{
    if i < 0 || i >= s.len() {
        Ok(seq![])
    } else {
        let c = s[i];
        let next_is_eq = i + 1 < s.len() && s[i + 1] == '=';
        if is_white(c) {
            expr_tokens(s, i + 1)
        } else if c == '(' {
            then_toks(seq![TokModel::LParen], expr_tokens(s, i + 1))
        } else if c == ')' {
            then_toks(seq![TokModel::RParen], expr_tokens(s, i + 1))
        } else if c == '=' {
            if next_is_eq { then_toks(seq![TokModel::Eq], expr_tokens(s, i + 2)) } else { Err(expected_at("=="@, s, i)) }
        } else if c == '!' {
            if next_is_eq { then_toks(seq![TokModel::NotEq], expr_tokens(s, i + 2)) } else { then_toks(seq![TokModel::Not], expr_tokens(s, i + 1)) }
        } else if c == '>' {
            if next_is_eq { then_toks(seq![TokModel::GtEq], expr_tokens(s, i + 2)) } else { then_toks(seq![TokModel::Gt], expr_tokens(s, i + 1)) }
        } else if c == '<' {
            if next_is_eq { then_toks(seq![TokModel::LtEq], expr_tokens(s, i + 2)) } else { then_toks(seq![TokModel::Lt], expr_tokens(s, i + 1)) }
        } else if c == '&' {
            if i + 1 < s.len() && s[i + 1] == '&' { then_toks(seq![TokModel::And], expr_tokens(s, i + 2)) } else { Err(expected_at("&&"@, s, i)) }
        } else if c == '|' {
            if i + 1 < s.len() && s[i + 1] == '|' { then_toks(seq![TokModel::Or], expr_tokens(s, i + 2)) } else { Err(expected_at("||"@, s, i)) }
        } else if c == '`' {
            let j = backquote_end(s, i + 1);
            let next = if j < s.len() { j + 1 } else { s.len() as int };
            if next <= i { Ok(seq![]) } else {
                then_toks(seq![TokModel::Val(ValueModel::Literal(s.subrange(i + 1, j)))], expr_tokens(s, next))
            }
        } else if c == '"' || c == '\'' {
            let (t, next) = quoted(s, i + 1, c);
            if next <= i || next > s.len() { Ok(seq![]) } else {
                then_toks(seq![TokModel::Val(ValueModel::Literal(t))], expr_tokens(s, next))
            }
        } else {
            let j = word_end(s, i);
            if j <= i || j > s.len() { Ok(seq![]) } else {
                then_toks(seq![word_token(s.subrange(i, j))], expr_tokens(s, j))
            }
        }
    }
}

proof fn lemma_word_end_bounds(s: Seq<char>, i: int)
    requires
        0 <= i <= s.len(),
    ensures
        i <= word_end(s, i) <= s.len(),
        i < s.len() && !ends_word(s[i]) ==> word_end(s, i) > i,
    decreases s.len() - i,
{
    if i < s.len() && !ends_word(s[i]) {
        lemma_word_end_bounds(s, i + 1);
    }
}

proof fn lemma_backquote_end_bounds(s: Seq<char>, i: int)
    requires
        0 <= i <= s.len(),
    ensures
        i <= backquote_end(s, i) <= s.len(),
    decreases s.len() - i,
{
    if i < s.len() && s[i] != '`' {
        lemma_backquote_end_bounds(s, i + 1);
    }
}

proof fn lemma_quoted_bounds(s: Seq<char>, i: int, q: char)
    requires
        0 <= i <= s.len(),
    ensures
        i <= quoted(s, i, q).1 <= s.len(),
        i < s.len() ==> i < quoted(s, i, q).1,
    decreases s.len() - i,
{
    if i < s.len() {
        if s[i] == '\\' {
            if i + 1 < s.len() {
                if s[i + 1] == 'u' {
                    lemma_unicode_escape_len(s.skip(i + 2));
                    let rest = unicode_escape(s.skip(i + 2)).1;
                    lemma_quoted_bounds(s, s.len() - rest.len(), q);
                } else {
                    lemma_quoted_bounds(s, i + 2, q);
                }
            }
        } else if s[i] != q {
            lemma_quoted_bounds(s, i + 1, q);
        }
    }
}

/// Finds where the word starting at `i` ends (see `word_end`).
fn word_end_exec(s: &Vec<char>, i: usize) -> (r: usize)
    requires
        i <= s.len(),
    ensures
        r == word_end(s@, i as int),
        i <= r <= s.len(),
{
    proof {
        lemma_word_end_bounds(s@, i as int);
    }
    let mut j = i;
    while j < s.len()
        invariant
            i <= j <= s.len(),
            word_end(s@, i as int) == word_end(s@, j as int),
        decreases s.len() - j,
    {
        let c = s[j];
        if char_is_white(c) || c == '(' || c == ')' || c == '=' || c == '!' || c == '<' || c == '>' || c == '&'
            || c == '|' || c == '"' || c == '\'' {
            return j;
        }
        j = j + 1;
    }
    j
}

/// Finds the next backquote at or after `i` (see `backquote_end`).
fn backquote_end_exec(s: &Vec<char>, i: usize) -> (r: usize)
    requires
        i <= s.len(),
    ensures
        r == backquote_end(s@, i as int),
        i <= r <= s.len(),
{
    proof {
        lemma_backquote_end_bounds(s@, i as int);
    }
    let mut j = i;
    while j < s.len()
        invariant
            i <= j <= s.len(),
            backquote_end(s@, i as int) == backquote_end(s@, j as int),
        decreases s.len() - j,
    {
        if s[j] == '`' {
            return j;
        }
        j = j + 1;
    }
    j
}

/// Reads a quoted literal (see `quoted`).
fn quoted_exec(s: &Vec<char>, i: usize, q: char) -> (r: (Vec<char>, usize))
    requires
        i <= s.len(),
    ensures
        (r.0@, r.1 as int) == quoted(s@, i as int, q),
        r.1 <= s.len(),
{
    proof {
        lemma_quoted_bounds(s@, i as int, q);
    }
    let mut acc: Vec<char> = Vec::new();
    let mut j = i;
    while j < s.len()
        invariant
            i <= j <= s.len(),
            quoted(s@, i as int, q) == (acc@ + quoted(s@, j as int, q).0, quoted(s@, j as int, q).1),
        decreases s.len() - j,
    {
        let c = s[j];
        if c == '\\' {
            if j + 1 >= s.len() {
                assert(quoted(s@, j as int, q) == (Seq::<char>::empty(), s.len() as int));
                assert(acc@ + Seq::<char>::empty() =~= acc@);
                return (acc, s.len());
            }
            let e = s[j + 1];
            if e == 'u' {
                let (out, next) = unicode_escape_exec(s, j + 2);
                proof {
                    lemma_unicode_escape_len(s@.skip(j + 2));
                    assert(s@.skip(next as int).len() == s.len() - next);
                    assert(quoted(s@, j as int, q) == (out@ + quoted(s@, next as int, q).0, quoted(s@, next as int, q).1));
                    assert(acc@ + (out@ + quoted(s@, next as int, q).0) =~= (acc@ + out@) + quoted(s@, next as int, q).0);
                }
                append_chars(&mut acc, &out);
                j = next;
            } else {
                let ch = if e == 'n' { '\n' } else if e == 'r' { '\r' } else if e == 't' { '\t' } else { e };
                proof {
                    assert(quoted(s@, j as int, q) == (seq![ch] + quoted(s@, j + 2, q).0, quoted(s@, j + 2, q).1));
                    assert(acc@ + (seq![ch] + quoted(s@, j + 2, q).0) =~= acc@.push(ch) + quoted(s@, j + 2, q).0);
                }
                acc.push(ch);
                j = j + 2;
            }
        } else if c == q {
            assert(quoted(s@, j as int, q) == (Seq::<char>::empty(), j + 1));
            assert(acc@ + Seq::<char>::empty() =~= acc@);
            return (acc, j + 1);
        } else {
            proof {
                assert(quoted(s@, j as int, q) == (seq![c] + quoted(s@, j + 1, q).0, quoted(s@, j + 1, q).1));
                assert(acc@ + (seq![c] + quoted(s@, j + 1, q).0) =~= acc@.push(c) + quoted(s@, j + 1, q).0);
            }
            acc.push(c);
            j = j + 1;
        }
    }
    assert(quoted(s@, j as int, q) == (Seq::<char>::empty(), s.len() as int));
    assert(acc@ + Seq::<char>::empty() =~= acc@);
    (acc, j)
}

/// The token of a bare word (see `word_token`).
fn word_token_exec(w: &Vec<char>) -> (r: ExprToken)
    ensures
        tok_model(r) == word_token(w@),
{
    let text = string_of(w);
    let low = str_to_lowercase(text.as_str());
    let lc = chars_of(low.as_str());
    if chars_eq(&lc, &chars_of("and")) {
        return ExprToken::And;
    }
    if chars_eq(&lc, &chars_of("or")) {
        return ExprToken::Or;
    }
    if chars_eq(&lc, &chars_of("not")) {
        return ExprToken::Not;
    }
    if chars_eq(&lc, &chars_of("true")) || chars_eq(&lc, &chars_of("false")) {
        return ExprToken::Val(ConditionValue::Literal(text));
    }
    if is_float_literal(text.as_str()) {
        return ExprToken::Val(ConditionValue::Number(text));
    }
    if w.len() > 0 && w[0] == '$' {
        let rest = string_of(&subrange_of(w, 1, w.len()));
        assert(rest@ =~= w@.drop_first());
        return ExprToken::Val(ConditionValue::Variable(str_to_lowercase(rest.as_str())));
    }
    match rfind_char(w, '.') {
        Some(k) => {
            let ent = string_of(&subrange_of(w, 0, k));
            let prop = string_of(&subrange_of(w, k + 1, w.len()));
            assert(ent@ =~= w@.take(k as int));
            assert(prop@ =~= w@.skip(k + 1));
            ExprToken::Val(ConditionValue::EntityProperty(str_to_lowercase(ent.as_str()), prop))
        },
        None => ExprToken::Val(ConditionValue::Literal(text)),
    }
}

proof fn lemma_then_toks_assoc(a: Seq<TokModel>, b: Seq<TokModel>, r: Result<Seq<TokModel>, Seq<char>>)
    ensures
        then_toks(a, then_toks(b, r)) == then_toks(a + b, r),
{
    match r {
        Ok(ts) => {
            assert(a + (b + ts) =~= (a + b) + ts);
        },
        Err(_) => {},
    }
}

/// Builds the error for an operator whose second character is missing (see `expected_at`).
fn expected_message(op: &str, s: &Vec<char>, i: usize) -> (r: String)
    requires
        i <= s.len(),
        utf8_len(s@) <= usize::MAX,
    ensures
        r@ == expected_at(op@, s@, i as int),
{
    let off = byte_offset(s, i);
    let mut m = chars_of("Expected '");
    append_str(&mut m, op);
    append_str(&mut m, "' at index ");
    append_str(&mut m, usize_to_string(off).as_str());
    string_of(&m)
}

/// Splits a condition into its tokens (see `expr_tokens`).
pub fn tokenize_expr(s: &str) -> (r: Result<Vec<ExprToken>, String>)
    requires
        utf8_len(s@) <= usize::MAX,
    ensures
        match expr_tokens(s@, 0) {
            Ok(ts) => r matches Ok(v) && toks_model(v@) == ts,
            Err(e) => r matches Err(m) && m@ == e,
        },
{
    let cs = chars_of(s);
    let mut tokens: Vec<ExprToken> = Vec::new();
    let mut i: usize = 0;
    assert(then_toks(Seq::<TokModel>::empty(), expr_tokens(s@, 0)) == expr_tokens(s@, 0)) by {
        match expr_tokens(s@, 0) {
            Ok(ts) => {
                assert(Seq::<TokModel>::empty() + ts =~= ts);
            },
            Err(_) => {},
        }
    }
    assert(toks_model(tokens@) =~= Seq::<TokModel>::empty());
    while i < cs.len()
        invariant
            i <= cs.len(),
            cs@ == s@,
            utf8_len(s@) <= usize::MAX,
            expr_tokens(s@, 0) == then_toks(toks_model(tokens@), expr_tokens(s@, i as int)),
        decreases cs.len() - i,
    {
        let c = cs[i];
        let next_is_eq = i + 1 < cs.len() && cs[i + 1] == '=';
        let ghost before = toks_model(tokens@);
        let (tok, next): (Option<ExprToken>, usize) = if char_is_white(c) {
            (None, i + 1)
        } else if c == '(' {
            (Some(ExprToken::LParen), i + 1)
        } else if c == ')' {
            (Some(ExprToken::RParen), i + 1)
        } else if c == '=' {
            if next_is_eq {
                (Some(ExprToken::Eq), i + 2)
            } else {
                return Err(expected_message("==", &cs, i));
            }
        } else if c == '!' {
            if next_is_eq { (Some(ExprToken::NotEq), i + 2) } else { (Some(ExprToken::Not), i + 1) }
        } else if c == '>' {
            if next_is_eq { (Some(ExprToken::GtEq), i + 2) } else { (Some(ExprToken::Gt), i + 1) }
        } else if c == '<' {
            if next_is_eq { (Some(ExprToken::LtEq), i + 2) } else { (Some(ExprToken::Lt), i + 1) }
        } else if c == '&' {
            if i + 1 < cs.len() && cs[i + 1] == '&' {
                (Some(ExprToken::And), i + 2)
            } else {
                return Err(expected_message("&&", &cs, i));
            }
        } else if c == '|' {
            if i + 1 < cs.len() && cs[i + 1] == '|' {
                (Some(ExprToken::Or), i + 2)
            } else {
                return Err(expected_message("||", &cs, i));
            }
        } else if c == '`' {
            let j = backquote_end_exec(&cs, i + 1);
            let next = if j < cs.len() { j + 1 } else { cs.len() };
            let lit = string_of(&subrange_of(&cs, i + 1, j));
            (Some(ExprToken::Val(ConditionValue::Literal(lit))), next)
        } else if c == '"' || c == '\'' {
            let (t, next) = quoted_exec(&cs, i + 1, c);
            proof {
                lemma_quoted_bounds(s@, i + 1, c);
            }
            (Some(ExprToken::Val(ConditionValue::Literal(string_of(&t)))), next)
        } else {
            let j = word_end_exec(&cs, i);
            proof {
                lemma_word_end_bounds(s@, i as int);
            }
            let w = subrange_of(&cs, i, j);
            (Some(word_token_exec(&w)), j)
        };
        match tok {
            Some(t) => {
                proof {
                    assert(expr_tokens(s@, i as int) == then_toks(seq![tok_model(t)], expr_tokens(s@, next as int)));
                    lemma_then_toks_assoc(before, seq![tok_model(t)], expr_tokens(s@, next as int));
                }
                tokens.push(t);
                assert(toks_model(tokens@) =~= before + seq![tok_model(t)]);
            },
            None => {
                assert(expr_tokens(s@, i as int) == expr_tokens(s@, next as int));
            },
        }
        i = next;
    }
    assert(expr_tokens(s@, i as int) == Ok::<Seq<TokModel>, Seq<char>>(Seq::<TokModel>::empty()));
    assert(toks_model(tokens@) + Seq::<TokModel>::empty() =~= toks_model(tokens@));
    Ok(tokens)
}

// ---------------------------------------------------------------------------
// Conditions
// ---------------------------------------------------------------------------

/// A logical condition, evaluated at render time.
#[derive(Debug, PartialEq)]
pub enum Condition {
    /// A single value, taken for its truth.
    Value(ConditionValue),
    /// The negation of a condition.
    Not(Box<Condition>),
    /// Both conditions.
    And(Box<Condition>, Box<Condition>),
    /// Either condition.
    Or(Box<Condition>, Box<Condition>),
    /// Two values are equal.
    Eq(ConditionValue, ConditionValue),
    /// Two values differ.
    NotEq(ConditionValue, ConditionValue),
    /// The left value is greater (numerically).
    Gt(ConditionValue, ConditionValue),
    /// The left value is smaller (numerically).
    Lt(ConditionValue, ConditionValue),
    /// The left value is greater or equal (numerically).
    GtEq(ConditionValue, ConditionValue),
    /// The left value is smaller or equal (numerically).
    LtEq(ConditionValue, ConditionValue),
}

/// The plain-value model of a condition.
pub enum CondModel {
    /// A value.
    Value(ValueModel),
    /// A negation.
    Not(Box<CondModel>),
    /// A conjunction.
    And(Box<CondModel>, Box<CondModel>),
    /// A disjunction.
    Or(Box<CondModel>, Box<CondModel>),
    /// `==`.
    Eq(ValueModel, ValueModel),
    /// `!=`.
    NotEq(ValueModel, ValueModel),
    /// `>`.
    Gt(ValueModel, ValueModel),
    /// `<`.
    Lt(ValueModel, ValueModel),
    /// `>=`.
    GtEq(ValueModel, ValueModel),
    /// `<=`.
    LtEq(ValueModel, ValueModel),
}

/// The model of a condition.
pub open spec fn cond_model(c: Condition) -> CondModel
    decreases c,
{
    match c {
        Condition::Value(v) => CondModel::Value(value_model(v)),
        Condition::Not(b) => CondModel::Not(Box::new(cond_model(*b))),
        Condition::And(l, r) => CondModel::And(Box::new(cond_model(*l)), Box::new(cond_model(*r))),
        Condition::Or(l, r) => CondModel::Or(Box::new(cond_model(*l)), Box::new(cond_model(*r))),
        Condition::Eq(a, b) => CondModel::Eq(value_model(a), value_model(b)),
        Condition::NotEq(a, b) => CondModel::NotEq(value_model(a), value_model(b)),
        Condition::Gt(a, b) => CondModel::Gt(value_model(a), value_model(b)),
        Condition::Lt(a, b) => CondModel::Lt(value_model(a), value_model(b)),
        Condition::GtEq(a, b) => CondModel::GtEq(value_model(a), value_model(b)),
        Condition::LtEq(a, b) => CondModel::LtEq(value_model(a), value_model(b)),
    }
}

/// The error for a condition nested deeper than the limit.
pub open spec fn depth_error(max: nat) -> Seq<char> {
    "Maximum expression nesting depth of "@ + decimal(max) + " exceeded"@
}

/// What parsing gives: a condition and the position after it, or an error.
pub type Parsed = Result<(CondModel, int), Seq<char>>;

/// A disjunction at `pos`, one level below `depth`: conjunctions joined by `||`, grouped
/// from the left.
pub open spec fn p_or(t: Seq<TokModel>, pos: int, depth: nat, max: nat) -> Parsed
    decreases t.len() - pos, 6nat,
{
    if pos < 0 || pos > t.len() {
        Err(seq![])
    } else if depth + 1 > max {
        Err(depth_error(max))
    } else {
        match p_and(t, pos, depth + 1, max) {
            Err(e) => Err(e),
            Ok((l, p1)) => if p1 < pos || p1 > t.len() { Err(seq![]) } else { or_rest(t, l, p1, depth + 1, max) },
        }
    }
}

/// The rest of a disjunction after `left`.
pub open spec fn or_rest(t: Seq<TokModel>, left: CondModel, pos: int, depth: nat, max: nat) -> Parsed
    decreases t.len() - pos, 5nat,
{
    if pos < 0 || pos > t.len() {
        Err(seq![])
    } else if pos < t.len() && t[pos] is Or {
        match p_and(t, pos + 1, depth, max) {
            Err(e) => Err(e),
            Ok((r, p2)) => if p2 <= pos || p2 > t.len() { Err(seq![]) } else {
                or_rest(t, CondModel::Or(Box::new(left), Box::new(r)), p2, depth, max)
            },
        }
    } else {
        Ok((left, pos))
    }
}

/// A conjunction: comparisons joined by `&&`, grouped from the left.
pub open spec fn p_and(t: Seq<TokModel>, pos: int, depth: nat, max: nat) -> Parsed
    decreases t.len() - pos, 4nat,
{
    if pos < 0 || pos > t.len() {
        Err(seq![])
    } else if depth + 1 > max {
        Err(depth_error(max))
    } else {
        match p_compare(t, pos, depth + 1, max) {
            Err(e) => Err(e),
            Ok((l, p1)) => if p1 < pos || p1 > t.len() { Err(seq![]) } else { and_rest(t, l, p1, depth + 1, max) },
        }
    }
}

/// The rest of a conjunction after `left`.
pub open spec fn and_rest(t: Seq<TokModel>, left: CondModel, pos: int, depth: nat, max: nat) -> Parsed
    decreases t.len() - pos, 3nat,
{
    if pos < 0 || pos > t.len() {
        Err(seq![])
    } else if pos < t.len() && t[pos] is And {
        match p_compare(t, pos + 1, depth, max) {
            Err(e) => Err(e),
            Ok((r, p2)) => if p2 <= pos || p2 > t.len() { Err(seq![]) } else {
                and_rest(t, CondModel::And(Box::new(left), Box::new(r)), p2, depth, max)
            },
        }
    } else {
        Ok((left, pos))
    }
}

/// Whether a token is a comparison operator.
pub open spec fn is_comparison(t: TokModel) -> bool {
    t is Eq || t is NotEq || t is Lt || t is Gt || t is LtEq || t is GtEq
}

/// The comparison of two values by an operator.
pub open spec fn comparison(op: TokModel, a: ValueModel, b: ValueModel) -> CondModel {
    match op {
        TokModel::Eq => CondModel::Eq(a, b),
        TokModel::NotEq => CondModel::NotEq(a, b),
        TokModel::Lt => CondModel::Lt(a, b),
        TokModel::Gt => CondModel::Gt(a, b),
        TokModel::LtEq => CondModel::LtEq(a, b),
        _ => CondModel::GtEq(a, b),
    }
}

/// A comparison: a unary condition, optionally followed by a comparison operator and
/// another; both sides of a comparison must be plain values.
pub open spec fn p_compare(t: Seq<TokModel>, pos: int, depth: nat, max: nat) -> Parsed
    decreases t.len() - pos, 2nat,
{
    if pos < 0 || pos > t.len() {
        Err(seq![])
    } else if depth + 1 > max {
        Err(depth_error(max))
    } else {
        match p_unary(t, pos, depth + 1, max) {
            Err(e) => Err(e),
            Ok((l, p1)) => if p1 < pos || p1 > t.len() { Err(seq![]) } else if p1 < t.len() && is_comparison(t[p1]) {
                match l {
                    CondModel::Value(lv) => match p_unary(t, p1 + 1, depth + 1, max) {
                        Err(e) => Err(e),
                        Ok((r, p2)) => match r {
                            CondModel::Value(rv) => Ok((comparison(t[p1], lv, rv), p2)),
                            _ => Err("Right side of comparison must be a value"@),
                        },
                    },
                    _ => Err("Left side of comparison must be a value"@),
                }
            } else {
                Ok((l, p1))
            },
        }
    }
}

/// A unary condition: `!` before a unary condition, a value, or a parenthesised disjunction.
pub open spec fn p_unary(t: Seq<TokModel>, pos: int, depth: nat, max: nat) -> Parsed
    decreases t.len() - pos, 1nat,
{
    if pos < 0 || pos > t.len() {
        Err(seq![])
    } else if depth + 1 > max {
        Err(depth_error(max))
    } else if pos < t.len() && t[pos] is Not {
        match p_unary(t, pos + 1, depth + 1, max) {
            Err(e) => Err(e),
            Ok((c, p1)) => Ok((CondModel::Not(Box::new(c)), p1)),
        }
    } else if pos < t.len() && t[pos] is Val {
        Ok((CondModel::Value(t[pos]->Val_0), pos + 1))
    } else if pos < t.len() && t[pos] is LParen {
        match p_or(t, pos + 1, depth + 1, max) {
            Err(e) => Err(e),
            Ok((c, p1)) => if 0 <= p1 < t.len() && t[p1] is RParen { Ok((c, p1 + 1)) } else { Err("Expected ')'"@) },
        }
    } else {
        Err("Expected expression or value"@)
    }
}

/// The condition that the tokens form: one disjunction and nothing after it.
pub open spec fn parsed_condition(t: Seq<TokModel>, max: nat) -> Result<CondModel, Seq<char>> {
    match p_or(t, 0, 0, max) {
        Err(e) => Err(e),
        Ok((c, p)) => if p < t.len() { Err("Unexpected trailing tokens in expression"@) } else { Ok(c) },
    }
}

/// What an exec parse result stands for.
pub open spec fn parse_result(r: Result<(Condition, usize), String>) -> Parsed {
    match r {
        Ok((c, p)) => Ok((cond_model(c), p as int)),
        Err(m) => Err(m@),
    }
}

/// Copies a condition value.
fn clone_value(v: &ConditionValue) -> (r: ConditionValue)
    ensures
        value_model(r) == value_model(*v),
{
    match v {
        ConditionValue::Literal(s) => ConditionValue::Literal(String::from_str(s.as_str())),
        ConditionValue::Number(s) => ConditionValue::Number(String::from_str(s.as_str())),
        ConditionValue::Variable(s) => ConditionValue::Variable(String::from_str(s.as_str())),
        ConditionValue::EntityProperty(e, p) => ConditionValue::EntityProperty(String::from_str(e.as_str()), String::from_str(p.as_str())),
    }
}

/// Builds the error for a condition nested too deep (see `depth_error`).
fn depth_error_message(max: usize) -> (r: String)
    ensures
        r@ == depth_error(max as nat),
{
    let mut m = chars_of("Maximum expression nesting depth of ");
    append_str(&mut m, usize_to_string(max).as_str());
    append_str(&mut m, " exceeded");
    string_of(&m)
}

/// Parses a disjunction (see `p_or`).
fn parse_or(t: &Vec<ExprToken>, pos: usize, depth: usize, max: usize) -> (r: Result<(Condition, usize), String>)
    requires
        pos <= t.len(),
        depth <= max,
    ensures
        parse_result(r) == p_or(toks_model(t@), pos as int, depth as nat, max as nat),
        r matches Ok((_, p)) ==> pos <= p <= t.len(),
    decreases t.len() - pos, 6nat,
{
    if depth >= max {
        return Err(depth_error_message(max));
    }
    let (l, p1) = match parse_and(t, pos, depth + 1, max) {
        Err(e) => {
            return Err(e);
        },
        Ok(x) => x,
    };
    parse_or_rest(t, l, p1, depth + 1, max)
}

/// Parses the rest of a disjunction (see `or_rest`).
fn parse_or_rest(t: &Vec<ExprToken>, left: Condition, pos: usize, depth: usize, max: usize) -> (r: Result<(Condition, usize), String>)
    requires
        pos <= t.len(),
        depth <= max,
    ensures
        parse_result(r) == or_rest(toks_model(t@), cond_model(left), pos as int, depth as nat, max as nat),
        r matches Ok((_, p)) ==> pos <= p <= t.len(),
    decreases t.len() - pos, 5nat,
{
    let is_or = pos < t.len() && match &t[pos] {
        ExprToken::Or => true,
        _ => false,
    };
    if !is_or {
        return Ok((left, pos));
    }
    let (r, p2) = match parse_and(t, pos + 1, depth, max) {
        Err(e) => {
            return Err(e);
        },
        Ok(x) => x,
    };
    let joined = Condition::Or(Box::new(left), Box::new(r));
    parse_or_rest(t, joined, p2, depth, max)
}

/// Parses a conjunction (see `p_and`).
fn parse_and(t: &Vec<ExprToken>, pos: usize, depth: usize, max: usize) -> (r: Result<(Condition, usize), String>)
    requires
        pos <= t.len(),
        depth <= max,
    ensures
        parse_result(r) == p_and(toks_model(t@), pos as int, depth as nat, max as nat),
        r matches Ok((_, p)) ==> pos <= p <= t.len(),
    decreases t.len() - pos, 4nat,
{
    if depth >= max {
        return Err(depth_error_message(max));
    }
    let (l, p1) = match parse_comparison(t, pos, depth + 1, max) {
        Err(e) => {
            return Err(e);
        },
        Ok(x) => x,
    };
    parse_and_rest(t, l, p1, depth + 1, max)
}

/// Parses the rest of a conjunction (see `and_rest`).
fn parse_and_rest(t: &Vec<ExprToken>, left: Condition, pos: usize, depth: usize, max: usize) -> (r: Result<(Condition, usize), String>)
    requires
        pos <= t.len(),
        depth <= max,
    ensures
        parse_result(r) == and_rest(toks_model(t@), cond_model(left), pos as int, depth as nat, max as nat),
        r matches Ok((_, p)) ==> pos <= p <= t.len(),
    decreases t.len() - pos, 3nat,
{
    let is_and = pos < t.len() && match &t[pos] {
        ExprToken::And => true,
        _ => false,
    };
    if !is_and {
        return Ok((left, pos));
    }
    let (r, p2) = match parse_comparison(t, pos + 1, depth, max) {
        Err(e) => {
            return Err(e);
        },
        Ok(x) => x,
    };
    let joined = Condition::And(Box::new(left), Box::new(r));
    parse_and_rest(t, joined, p2, depth, max)
}

/// Parses a comparison (see `p_compare`).
fn parse_comparison(t: &Vec<ExprToken>, pos: usize, depth: usize, max: usize) -> (r: Result<(Condition, usize), String>)
    requires
        pos <= t.len(),
        depth <= max,
    ensures
        parse_result(r) == p_compare(toks_model(t@), pos as int, depth as nat, max as nat),
        r matches Ok((_, p)) ==> pos <= p <= t.len(),
    decreases t.len() - pos, 2nat,
{
    if depth >= max {
        return Err(depth_error_message(max));
    }
    let (l, p1) = match parse_unary(t, pos, depth + 1, max) {
        Err(e) => {
            return Err(e);
        },
        Ok(x) => x,
    };
    if p1 >= t.len() {
        return Ok((l, p1));
    }
    let op: u8 = match &t[p1] {
        ExprToken::Eq => 1,
        ExprToken::NotEq => 2,
        ExprToken::Lt => 3,
        ExprToken::Gt => 4,
        ExprToken::LtEq => 5,
        ExprToken::GtEq => 6,
        _ => 0,
    };
    if op == 0 {
        return Ok((l, p1));
    }
    let lv = match l {
        Condition::Value(v) => v,
        _ => {
            return Err(String::from_str("Left side of comparison must be a value"));
        },
    };
    let (r, p2) = match parse_unary(t, p1 + 1, depth + 1, max) {
        Err(e) => {
            return Err(e);
        },
        Ok(x) => x,
    };
    let rv = match r {
        Condition::Value(v) => v,
        _ => {
            return Err(String::from_str("Right side of comparison must be a value"));
        },
    };
    let c = if op == 1 {
        Condition::Eq(lv, rv)
    } else if op == 2 {
        Condition::NotEq(lv, rv)
    } else if op == 3 {
        Condition::Lt(lv, rv)
    } else if op == 4 {
        Condition::Gt(lv, rv)
    } else if op == 5 {
        Condition::LtEq(lv, rv)
    } else {
        Condition::GtEq(lv, rv)
    };
    Ok((c, p2))
}

/// Parses a unary condition (see `p_unary`).
fn parse_unary(t: &Vec<ExprToken>, pos: usize, depth: usize, max: usize) -> (r: Result<(Condition, usize), String>)
    requires
        pos <= t.len(),
        depth <= max,
    ensures
        parse_result(r) == p_unary(toks_model(t@), pos as int, depth as nat, max as nat),
        r matches Ok((_, p)) ==> pos <= p <= t.len(),
    decreases t.len() - pos, 1nat,
{
    if depth >= max {
        return Err(depth_error_message(max));
    }
    if pos >= t.len() {
        return Err(String::from_str("Expected expression or value"));
    }
    match &t[pos] {
        ExprToken::Not => {
            match parse_unary(t, pos + 1, depth + 1, max) {
                Err(e) => Err(e),
                Ok((c, p1)) => Ok((Condition::Not(Box::new(c)), p1)),
            }
        },
        ExprToken::Val(v) => Ok((Condition::Value(clone_value(v)), pos + 1)),
        ExprToken::LParen => {
            let (c, p1) = match parse_or(t, pos + 1, depth + 1, max) {
                Err(e) => {
                    return Err(e);
                },
                Ok(x) => x,
            };
            let closed = p1 < t.len() && match &t[p1] {
                ExprToken::RParen => true,
                _ => false,
            };
            if closed {
                Ok((c, p1 + 1))
            } else {
                Err(String::from_str("Expected ')'"))
            }
        },
        _ => Err(String::from_str("Expected expression or value")),
    }
}

impl Condition {
    /// Parses a condition (see `expr_tokens` and `parsed_condition`), nested at most
    /// `max_depth` levels deep.
    pub fn parse(s: &str, max_depth: usize) -> (r: Result<Condition, String>)
        requires
            utf8_len(s@) <= usize::MAX,
        ensures
            match expr_tokens(s@, 0) {
                Err(e) => r matches Err(m) && m@ == e,
                Ok(ts) => match parsed_condition(ts, max_depth as nat) {
                    Ok(c) => r matches Ok(x) && cond_model(x) == c,
                    Err(e) => r matches Err(m) && m@ == e,
                },
            },
    {
        let tokens = match tokenize_expr(s) {
            Ok(t) => t,
            Err(e) => {
                return Err(e);
            },
        };
        let (c, p) = match parse_or(&tokens, 0, 0, max_depth) {
            Ok(x) => x,
            Err(e) => {
                return Err(e);
            },
        };
        if p < tokens.len() {
            return Err(String::from_str("Unexpected trailing tokens in expression"));
        }
        Ok(c)
    }
}

} // verus!
