//! The tag syntax of templates: delimiters, modifiers, tag flags, and the helpers that read
//! the pieces of a tag.
use vstd::prelude::*;
use crate::grammar::string_views;
use crate::resolve::lemma_trim_start_len;
use crate::text::{
    append_chars, append_str, char_has_uppercase_property, char_is_uppercase,
    chars_eq_ignore_ascii_case, chars_find_from, chars_of, chars_trim,
    chars_trim_start, eq_ignore_ascii_case, ends_with, find, lemma_find_bounds,
    split_chars, split_on, str_to_lowercase, string_of, subrange_of, trim, trim_start,
    unicode_lowercase, views, char_is_alphabetic, char_has_alphabetic_property, char_from_u32,
    is_scalar_value, chars_eq,
    char_has_alphanumeric_property, char_is_alphanumeric, decimal, usize_to_string,
};

verus! {

// ---------------------------------------------------------------------------
// Syntax
// ---------------------------------------------------------------------------

/// Opens an entity tag.
pub const TAG_ENTITY_OPEN: char = '{';
/// Closes an entity tag.
pub const TAG_ENTITY_CLOSE: char = '}';
/// Opens a verb tag.
pub const TAG_VERB_OPEN: char = '[';
/// Closes a verb tag.
pub const TAG_VERB_CLOSE: char = ']';
/// Separates the parts of a tag.
pub const TAG_SEPARATOR: char = ':';
/// Separates the properties of a path.
pub const TAG_PROPERTY_SEP: char = '.';
/// Escapes a delimiter.
pub const TAG_ESCAPE: char = '\\';
/// Separates forced present forms from forced past forms in a verb tag.
pub const VERB_TENSE_SEP: char = ';';
/// Separates forced forms of one tense.
pub const VERB_FORM_SEP: char = '|';
/// Forces the third-person (Director) stance.
pub const MOD_FORCE_3RD_PERSON: char = '+';
/// Disables the smart article upgrade.
pub const MOD_NO_SMART: char = '!';
/// Forces singular conjugation.
pub const MOD_FORCE_SINGULAR: char = '-';
/// Prefers the noun over a pronoun.
pub const MOD_PREFER_NOUN: char = '*';
/// Allows the ambiguous plural "you".
pub const MOD_ALLOW_AMBIGUOUS_YOU: char = '~';
/// Extracts an unspecified member of a group.
pub const MOD_EXTRACT_GROUP_MEMBER: char = '^';
/// Drops the possessive of a proper noun.
pub const MOD_DROP_POSSESSIVE: char = '@';

// ---------------------------------------------------------------------------
// Tag flags
// ---------------------------------------------------------------------------

/// The options of a tag.
#[derive(Clone, Copy, Debug, PartialEq, Eq, Structural)]
pub struct TagFlags {
    /// The entity key was capitalized (`{Source}`).
    pub is_capitalized: bool,
    /// The article was forced to render (`{+the:source}`).
    pub force_article: bool,
    /// The third-person stance was forced (`{+source}`).
    pub force_3rd_person: bool,
    /// The possessive form was asked for (`{source's}`).
    pub is_possessive: bool,
    /// The smart article upgrade was disabled (`{!a:source}`).
    pub no_smart: bool,
    /// Singular conjugation was forced (`{-source}`).
    pub force_singular: bool,
    /// The article given is indefinite ("a", "an").
    pub article_indefinite: bool,
    /// The article given was capitalized (`{A:source}`).
    pub article_capitalized: bool,
    /// Nouns are preferred over pronouns (`*`).
    pub prefer_noun: bool,
    /// The ambiguous plural "you" is allowed (`~`).
    pub allow_ambiguous_you: bool,
    /// An unspecified member is extracted from a group (`^`).
    pub extract_group_member: bool,
    /// The pronoun asked for was capitalized.
    pub pronoun_capitalized: bool,
    /// The whole tag was written in upper case.
    pub all_caps: bool,
    /// Possessives of proper nouns are dropped (`@`).
    pub drop_possessive: bool,
}

/// No option set.
pub open spec fn no_flags() -> TagFlags {
    TagFlags {
        is_capitalized: false,
        force_article: false,
        force_3rd_person: false,
        is_possessive: false,
        no_smart: false,
        force_singular: false,
        article_indefinite: false,
        article_capitalized: false,
        prefer_noun: false,
        allow_ambiguous_you: false,
        extract_group_member: false,
        pronoun_capitalized: false,
        all_caps: false,
        drop_possessive: false,
    }
}

impl TagFlags {
    /// No option set.
    pub fn empty() -> (r: Self)
        ensures
            r == no_flags(),
    {
        TagFlags {
            is_capitalized: false,
            force_article: false,
            force_3rd_person: false,
            is_possessive: false,
            no_smart: false,
            force_singular: false,
            article_indefinite: false,
            article_capitalized: false,
            prefer_noun: false,
            allow_ambiguous_you: false,
            extract_group_member: false,
            pronoun_capitalized: false,
            all_caps: false,
            drop_possessive: false,
        }
    }

    /// The flags with each option given.
    pub fn new(
        is_capitalized: bool,
        force_article: bool,
        force_3rd_person: bool,
        is_possessive: bool,
        no_smart: bool,
        force_singular: bool,
        article_indefinite: bool,
        article_capitalized: bool,
        prefer_noun: bool,
        allow_ambiguous_you: bool,
        extract_group_member: bool,
        pronoun_capitalized: bool,
        all_caps: bool,
        drop_possessive: bool,
    ) -> (r: Self)
        ensures
            r == (TagFlags {
                is_capitalized,
                force_article,
                force_3rd_person,
                is_possessive,
                no_smart,
                force_singular,
                article_indefinite,
                article_capitalized,
                prefer_noun,
                allow_ambiguous_you,
                extract_group_member,
                pronoun_capitalized,
                all_caps,
                drop_possessive,
            }),
    {
        TagFlags {
            is_capitalized,
            force_article,
            force_3rd_person,
            is_possessive,
            no_smart,
            force_singular,
            article_indefinite,
            article_capitalized,
            prefer_noun,
            allow_ambiguous_you,
            extract_group_member,
            pronoun_capitalized,
            all_caps,
            drop_possessive,
        }
    }

    /// Whether the entity key was capitalized.
    pub fn is_capitalized(self) -> (r: bool)
        ensures
            r == self.is_capitalized,
    {
        self.is_capitalized
    }

    /// Whether the article was forced.
    pub fn force_article(self) -> (r: bool)
        ensures
            r == self.force_article,
    {
        self.force_article
    }

    /// Whether the third-person stance was forced.
    pub fn force_3rd_person(self) -> (r: bool)
        ensures
            r == self.force_3rd_person,
    {
        self.force_3rd_person
    }

    /// Whether the possessive form was asked for.
    pub fn is_possessive(self) -> (r: bool)
        ensures
            r == self.is_possessive,
    {
        self.is_possessive
    }

    /// Whether the smart article upgrade was disabled.
    pub fn no_smart(self) -> (r: bool)
        ensures
            r == self.no_smart,
    {
        self.no_smart
    }

    /// Whether singular conjugation was forced.
    pub fn force_singular(self) -> (r: bool)
        ensures
            r == self.force_singular,
    {
        self.force_singular
    }

    /// Whether the article given is indefinite.
    pub fn article_indefinite(self) -> (r: bool)
        ensures
            r == self.article_indefinite,
    {
        self.article_indefinite
    }

    /// Whether the article given was capitalized.
    pub fn article_capitalized(self) -> (r: bool)
        ensures
            r == self.article_capitalized,
    {
        self.article_capitalized
    }

    /// Whether nouns are preferred over pronouns.
    pub fn prefer_noun(self) -> (r: bool)
        ensures
            r == self.prefer_noun,
    {
        self.prefer_noun
    }

    /// Whether the ambiguous plural "you" is allowed.
    pub fn allow_ambiguous_you(self) -> (r: bool)
        ensures
            r == self.allow_ambiguous_you,
    {
        self.allow_ambiguous_you
    }

    /// Whether an unspecified member is extracted from a group.
    pub fn extract_group_member(self) -> (r: bool)
        ensures
            r == self.extract_group_member,
    {
        self.extract_group_member
    }

    /// Whether possessives of proper nouns are dropped.
    pub fn drop_possessive(self) -> (r: bool)
        ensures
            r == self.drop_possessive,
    {
        self.drop_possessive
    }
}

// ---------------------------------------------------------------------------
// Stance prefixes
// ---------------------------------------------------------------------------

/// The flags after one prefix modifier character, or `None` for any other character.
pub open spec fn modifier_flag(c: char, f: TagFlags) -> Option<TagFlags> {
    if c == MOD_FORCE_3RD_PERSON {
        Some(TagFlags { force_3rd_person: true, ..f })
    } else if c == MOD_NO_SMART {
        Some(TagFlags { no_smart: true, ..f })
    } else if c == MOD_FORCE_SINGULAR {
        Some(TagFlags { force_singular: true, ..f })
    } else if c == MOD_PREFER_NOUN {
        Some(TagFlags { prefer_noun: true, ..f })
    } else if c == MOD_ALLOW_AMBIGUOUS_YOU {
        Some(TagFlags { allow_ambiguous_you: true, ..f })
    } else if c == MOD_EXTRACT_GROUP_MEMBER {
        Some(TagFlags { extract_group_member: true, ..f })
    } else if c == MOD_DROP_POSSESSIVE {
        Some(TagFlags { drop_possessive: true, ..f })
    } else {
        None
    }
}

/// The text after its leading modifiers (white space between them allowed) and the flags
/// they set on top of `f`.
pub open spec fn stance_prefixes(s: Seq<char>, f: TagFlags) -> (Seq<char>, TagFlags)
    decreases s.len(),
{
    let t = trim_start(s);
    if t.len() == 0 {
        (t, f)
    } else {
        match modifier_flag(t[0], f) {
            Some(g) => {
                proof {
                    lemma_trim_start_len(s);
                }
                stance_prefixes(t.drop_first(), g)
            },
            None => (t, f),
        }
    }
}

/// The flags after one prefix modifier character (see `modifier_flag`).
fn modifier_flag_exec(c: char, f: TagFlags) -> (r: Option<TagFlags>)
    ensures
        r == modifier_flag(c, f),
{
    if c == MOD_FORCE_3RD_PERSON {
        Some(TagFlags { force_3rd_person: true, ..f })
    } else if c == MOD_NO_SMART {
        Some(TagFlags { no_smart: true, ..f })
    } else if c == MOD_FORCE_SINGULAR {
        Some(TagFlags { force_singular: true, ..f })
    } else if c == MOD_PREFER_NOUN {
        Some(TagFlags { prefer_noun: true, ..f })
    } else if c == MOD_ALLOW_AMBIGUOUS_YOU {
        Some(TagFlags { allow_ambiguous_you: true, ..f })
    } else if c == MOD_EXTRACT_GROUP_MEMBER {
        Some(TagFlags { extract_group_member: true, ..f })
    } else if c == MOD_DROP_POSSESSIVE {
        Some(TagFlags { drop_possessive: true, ..f })
    } else {
        None
    }
}

/// Reads the prefix modifiers (`+`, `!`, `-`, `*`, `~`, `^`, `@`) of a tag: returns the rest
/// of the tag and the flags they set.
pub fn parse_stance_prefixes(s: &str) -> (r: (String, TagFlags))
    ensures
        (r.0@, r.1) == stance_prefixes(s@, no_flags()),
{
    let mut text = chars_of(s);
    let mut flags = TagFlags::empty();
    loop
        invariant
            stance_prefixes(text@, flags) == stance_prefixes(s@, no_flags()),
        decreases text@.len(),
    {
        let t = chars_trim_start(&text);
        proof {
            lemma_trim_start_len(text@);
        }
        if t.len() == 0 {
            return (string_of(&t), flags);
        }
        match modifier_flag_exec(t[0], flags) {
            Some(g) => {
                flags = g;
                let rest = subrange_of(&t, 1, t.len());
                assert(rest@ =~= t@.drop_first());
                text = rest;
            },
            None => {
                return (string_of(&t), flags);
            },
        }
    }
}

// ---------------------------------------------------------------------------
// Errors
// ---------------------------------------------------------------------------

/// The delimiter that closes a tag opened by `open_char`.
pub open spec fn closing_char(open_char: char) -> char {
    if open_char == TAG_ENTITY_OPEN { TAG_ENTITY_CLOSE } else { TAG_VERB_CLOSE }
}

/// A validation message: "<message>: <open><content><close>".
pub open spec fn validation_message(message: Seq<char>, content: Seq<char>, open_char: char) -> Seq<char> {
    message + ": "@ + seq![open_char] + content + seq![closing_char(open_char)]
}

/// Builds the message that rejects a malformed tag.
pub fn validation_error(message: &str, content: &str, open_char: char) -> (r: String)
    ensures
        r@ == validation_message(message@, content@, open_char),
{
    let close_char = if open_char == TAG_ENTITY_OPEN { TAG_ENTITY_CLOSE } else { TAG_VERB_CLOSE };
    let mut v = chars_of(message);
    append_str(&mut v, ": ");
    v.push(open_char);
    append_str(&mut v, content);
    v.push(close_char);
    let ghost expected = validation_message(message@, content@, open_char);
    assert(v@ =~= expected);
    string_of(&v)
}

/// Rejects a tag with the message when the condition holds.
pub fn reject_if(condition: bool, error_msg: &str, content: &str, open_char: char) -> (r: Result<(), String>)
    ensures
        match r {
            Ok(()) => !condition,
            Err(e) => condition && e@ == validation_message(error_msg@, content@, open_char),
        },
{
    if condition {
        Err(validation_error(error_msg, content, open_char))
    } else {
        Ok(())
    }
}

/// Rejects a property path with an empty segment ("source..weapon", ".weapon").
pub fn validate_property_segments(path: &str, error_msg: &str, content: &str, open_char: char) -> (r: Result<(), String>)
    ensures
        match r {
            Ok(()) => forall|i: int| 0 <= i < split_on(path@, TAG_PROPERTY_SEP).len() ==> (#[trigger] split_on(path@, TAG_PROPERTY_SEP)[i]).len() > 0,
            Err(e) => (exists|i: int| 0 <= i < split_on(path@, TAG_PROPERTY_SEP).len() && (#[trigger] split_on(path@, TAG_PROPERTY_SEP)[i]).len() == 0)
                && e@ == validation_message(error_msg@, content@, open_char),
        },
{
    let segs = split_chars(&chars_of(path), TAG_PROPERTY_SEP);
    let ghost sv = split_on(path@, TAG_PROPERTY_SEP);
    let mut any_empty = false;
    let mut i: usize = 0;
    while i < segs.len()
        invariant
            i <= segs.len(),
            views(segs@) == sv,
            any_empty == exists|k: int| 0 <= k < i && (#[trigger] sv[k]).len() == 0,
        decreases segs.len() - i,
    {
        if segs[i].len() == 0 {
            assert(sv[i as int].len() == 0);
            any_empty = true;
        }
        i = i + 1;
    }
    reject_if(any_empty, error_msg, content, open_char)
}

// ---------------------------------------------------------------------------
// Forced conjugations and tag parts
// ---------------------------------------------------------------------------

/// The trimmed forms of one tense in a forced conjugation ("walks | walk").
pub open spec fn forced_forms(s: Seq<char>) -> Seq<Seq<char>> {
    split_on(s, VERB_FORM_SEP).map_values(|p: Seq<char>| trim(p))
}

/// Whether one of the forms is empty.
pub open spec fn has_empty_form(forms: Seq<Seq<char>>) -> bool {
    exists|i: int| 0 <= i < forms.len() && (#[trigger] forms[i]).len() == 0
}

/// The forced present forms, if any: at most three non-empty forms.
pub open spec fn forced_present(pres: Seq<char>, content: Seq<char>) -> Result<Option<Seq<Seq<char>>>, Seq<char>> {
    if pres.len() == 0 {
        Ok(None)
    } else {
        let parts = forced_forms(pres);
        if has_empty_form(parts) {
            Err(validation_message("Verb tag has an empty forced present conjugation segment"@, content, TAG_VERB_OPEN))
        } else if parts.len() > 3 {
            Err(validation_message("Verb tag has too many forced present conjugation segments"@, content, TAG_VERB_OPEN))
        } else {
            Ok(Some(parts))
        }
    }
}

/// The forced past forms: at most three non-empty forms.
pub open spec fn forced_past(past: Seq<char>, content: Seq<char>) -> Result<Seq<Seq<char>>, Seq<char>> {
    let parts = forced_forms(past);
    if past.len() == 0 || has_empty_form(parts) {
        Err(validation_message("Verb tag has an empty forced past conjugation segment"@, content, TAG_VERB_OPEN))
    } else if parts.len() > 3 {
        Err(validation_message("Verb tag has too many forced past conjugation segments"@, content, TAG_VERB_OPEN))
    } else {
        Ok(parts)
    }
}

/// The forced conjugations of a verb tag ("walks|walk;walked"): present forms before the
/// tense separator, past forms after it.
pub open spec fn forced_conjugations(forced: Seq<char>, content: Seq<char>) -> Result<(Option<Seq<Seq<char>>>, Option<Seq<Seq<char>>>), Seq<char>> {
    let (pres, past) = match find(forced, seq![VERB_TENSE_SEP]) {
        Some(i) => (forced.take(i), Some(forced.skip(i + 1))),
        None => (forced, None),
    };
    match forced_present(pres, content) {
        Err(e) => Err(e),
        Ok(fp) => match past {
            None => Ok((fp, None)),
            Some(p) => match forced_past(p, content) {
                Err(e) => Err(e),
                Ok(parts) => Ok((fp, Some(parts))),
            },
        },
    }
}

/// The trimmed forms of one tense, and whether one of them is empty.
fn forms_of(s: &Vec<char>) -> (r: (Vec<String>, bool))
    ensures
        string_views(r.0@) == forced_forms(s@),
        r.1 == has_empty_form(forced_forms(s@)),
{
    let pieces = split_chars(s, VERB_FORM_SEP);
    let ghost forms = forced_forms(s@);
    let mut parts: Vec<String> = Vec::new();
    let mut any_empty = false;
    let mut i: usize = 0;
    while i < pieces.len()
        invariant
            i <= pieces.len(),
            views(pieces@) == split_on(s@, VERB_FORM_SEP),
            forms == forced_forms(s@),
            string_views(parts@) == forms.take(i as int),
            any_empty == exists|k: int| 0 <= k < i && (#[trigger] forms[k]).len() == 0,
        decreases pieces.len() - i,
    {
        let t = chars_trim(&pieces[i]);
        assert(forms[i as int] == t@);
        if t.len() == 0 {
            any_empty = true;
        }
        let ghost before = string_views(parts@);
        parts.push(string_of(&t));
        assert(string_views(parts@) =~= before.push(t@));
        assert(forms.take(i + 1) =~= forms.take(i as int).push(forms[i as int]));
        i = i + 1;
    }
    assert(forms.take(i as int) =~= forms);
    (parts, any_empty)
}

/// Reads the forced conjugations of a verb tag (see `forced_conjugations`).
pub fn parse_forced_conjugations(forced: &str, content: &str) -> (r: Result<(Option<Vec<String>>, Option<Vec<String>>), String>)
    ensures
        match r {
            Ok((p, q)) => forced_conjugations(forced@, content@) == Ok::<(Option<Seq<Seq<char>>>, Option<Seq<Seq<char>>>), Seq<char>>(
                (match p { Some(v) => Some(string_views(v@)), None => None },
                 match q { Some(v) => Some(string_views(v@)), None => None })),
            Err(e) => forced_conjugations(forced@, content@) == Err::<(Option<Seq<Seq<char>>>, Option<Seq<Seq<char>>>), Seq<char>>(e@),
        },
{
    let fv = chars_of(forced);
    let sep = vec![VERB_TENSE_SEP];
    assert(sep@ =~= seq![VERB_TENSE_SEP]);
    let (pres_str, past_str) = match chars_find_from(&fv, &sep, 0) {
        Some(i) => {
            proof {
                lemma_find_bounds(fv@, sep@, 0);
            }
            let a = subrange_of(&fv, 0, i);
            let b = subrange_of(&fv, i + 1, fv.len());
            assert(a@ =~= fv@.take(i as int));
            assert(b@ =~= fv@.skip(i + 1));
            (a, Some(b))
        },
        None => (fv, None),
    };
    let mut forced_present_forms: Option<Vec<String>> = None;
    if pres_str.len() > 0 {
        let (parts, any_empty) = forms_of(&pres_str);
        reject_if(any_empty, "Verb tag has an empty forced present conjugation segment", content, TAG_VERB_OPEN)?;
        reject_if(parts.len() > 3, "Verb tag has too many forced present conjugation segments", content, TAG_VERB_OPEN)?;
        forced_present_forms = Some(parts);
    }
    let mut forced_past_forms: Option<Vec<String>> = None;
    match past_str {
        Some(p) => {
            reject_if(p.len() == 0, "Verb tag has an empty forced past conjugation segment", content, TAG_VERB_OPEN)?;
            let (parts, any_empty) = forms_of(&p);
            reject_if(any_empty, "Verb tag has an empty forced past conjugation segment", content, TAG_VERB_OPEN)?;
            reject_if(parts.len() > 3, "Verb tag has too many forced past conjugation segments", content, TAG_VERB_OPEN)?;
            forced_past_forms = Some(parts);
        },
        None => {},
    }
    Ok((forced_present_forms, forced_past_forms))
}

/// The two parts of a tag around the separator ("a:source"), trimmed; more than two parts
/// are rejected with `malformed_msg`.
pub open spec fn tag_parts(content: Seq<char>, open_char: char, malformed_msg: Seq<char>) -> Result<(Seq<char>, Option<Seq<char>>), Seq<char>> {
    let parts = split_on(content, TAG_SEPARATOR);
    if parts.len() > 2 {
        Err(validation_message(malformed_msg, content, open_char))
    } else {
        Ok((
            if parts.len() > 0 { trim(parts[0]) } else { seq![] },
            if parts.len() > 1 { Some(trim(parts[1])) } else { None },
        ))
    }
}

/// Splits a tag into its two parts (see `tag_parts`).
pub fn split_tag(content: &str, open_char: char, malformed_msg: &str) -> (r: Result<(String, Option<String>), String>)
    ensures
        match r {
            Ok((a, b)) => tag_parts(content@, open_char, malformed_msg@) == Ok::<(Seq<char>, Option<Seq<char>>), Seq<char>>((a@, crate::models::opt_view(b))),
            Err(e) => tag_parts(content@, open_char, malformed_msg@) == Err::<(Seq<char>, Option<Seq<char>>), Seq<char>>(e@),
        },
{
    let parts = split_chars(&chars_of(content), TAG_SEPARATOR);
    let ghost pv = split_on(content@, TAG_SEPARATOR);
    assert(views(parts@) == pv);
    let p1 = if parts.len() > 0 {
        assert(pv[0] == parts@[0]@);
        string_of(&chars_trim(&parts[0]))
    } else {
        String::new()
    };
    let p2 = if parts.len() > 1 {
        assert(pv[1] == parts@[1]@);
        Some(string_of(&chars_trim(&parts[1])))
    } else {
        None
    };
    reject_if(parts.len() > 2, malformed_msg, content, open_char)?;
    Ok((p1, p2))
}

/// Whether a tag part names a pronoun type: after its modifiers, trimmed and lower-cased,
/// it is "subj", "obj", "poss", "abs_poss" or "reflex".
pub open spec fn is_pronoun_type(s: Seq<char>) -> bool {
    let lower = unicode_lowercase(trim(stance_prefixes(s, no_flags()).0));
    ||| lower == "subj"@
    ||| lower == "obj"@
    ||| lower == "poss"@
    ||| lower == "abs_poss"@
    ||| lower == "reflex"@
}

/// Whether a tag part names a pronoun type (see `is_pronoun_type`).
pub fn is_p_type(s: &str) -> (r: bool)
    ensures
        r == is_pronoun_type(s@),
{
    let (clean, _) = parse_stance_prefixes(s);
    let t = string_of(&chars_trim(&chars_of(clean.as_str())));
    let lower = chars_of(str_to_lowercase(t.as_str()).as_str());
    chars_eq(&lower, &chars_of("subj")) || chars_eq(&lower, &chars_of("obj"))
        || chars_eq(&lower, &chars_of("poss")) || chars_eq(&lower, &chars_of("abs_poss"))
        || chars_eq(&lower, &chars_of("reflex"))
}

// ---------------------------------------------------------------------------
// Quotes and escapes
// ---------------------------------------------------------------------------

/// The quote characters.
pub open spec fn is_quote(c: char) -> bool {
    c == '"' || c == '\'' || c == '`'
}

/// The text trimmed, without one layer of matching outer quotes.
pub open spec fn outer_quotes_stripped(s: Seq<char>) -> Seq<char> {
    let t = trim(s);
    if t.len() >= 2 && is_quote(t[0]) && t.last() == t[0] {
        t.subrange(1, t.len() - 1)
    } else {
        t
    }
}

/// Trims the text and removes exactly one layer of matching outer quotes.
pub fn strip_outer_quotes(s: &str) -> (r: String)
    ensures
        r@ == outer_quotes_stripped(s@),
{
    let t = chars_trim(&chars_of(s));
    if t.len() >= 2 && (t[0] == '"' || t[0] == '\'' || t[0] == '`') && t[t.len() - 1] == t[0] {
        return string_of(&subrange_of(&t, 1, t.len() - 1));
    }
    string_of(&t)
}

/// Whether a character is a hexadecimal digit.
pub open spec fn is_hex_digit(c: char) -> bool {
    ('0' <= c && c <= '9') || ('a' <= c && c <= 'f') || ('A' <= c && c <= 'F')
}

/// The value of a hexadecimal digit.
pub open spec fn hex_digit_value(c: char) -> nat {
    if '0' <= c && c <= '9' {
        (c as nat - '0' as nat) as nat
    } else if 'a' <= c && c <= 'f' {
        (c as nat - 'a' as nat + 10) as nat
    } else {
        (c as nat - 'A' as nat + 10) as nat
    }
}

/// The value of a string of hexadecimal digits.
pub open spec fn hex_value(s: Seq<char>) -> nat
    decreases s.len(),
{
    if s.len() == 0 {
        0
    } else {
        hex_value(s.drop_last()) * 16 + hex_digit_value(s.last())
    }
}

/// Whether every character is a hexadecimal digit.
pub open spec fn all_hex(digits: Seq<char>) -> bool {
    forall|i: int| 0 <= i < digits.len() ==> is_hex_digit(#[trigger] digits[i])
}

/// What `u32::from_str_radix(s, 16)` gives: an optional '+', then at least one hexadecimal
/// digit, with a value that fits in 32 bits.
pub open spec fn hex_u32(s: Seq<char>) -> Option<u32> {
    let digits = if s.len() > 0 && s[0] == '+' { s.drop_first() } else { s };
    if digits.len() == 0 || !all_hex(digits) {
        None
    } else if hex_value(digits) <= u32::MAX {
        Some(hex_value(digits) as u32)
    } else {
        None
    }
}

/// Parses a hexadecimal number the way `u32::from_str_radix(s, 16)` does.
fn parse_hex_u32(s: &Vec<char>) -> (r: Option<u32>)
    ensures
        r == hex_u32(s@),
{
    let start: usize = if s.len() > 0 && s[0] == '+' { 1 } else { 0 };
    let ghost digits = if s@.len() > 0 && s@[0] == '+' { s@.drop_first() } else { s@ };
    assert(digits =~= s@.skip(start as int));
    if start == s.len() {
        assert(digits.len() == 0);
        return None;
    }
    let mut value: u64 = 0;
    let mut i: usize = start;
    while i < s.len()
        invariant
            start <= i <= s.len(),
            digits == s@.skip(start as int),
            digits == (if s@.len() > 0 && s@[0] == '+' { s@.drop_first() } else { s@ }),
            value == hex_value(digits.take(i - start)),
            value <= u32::MAX,
            forall|k: int| 0 <= k < i - start ==> is_hex_digit(#[trigger] digits[k]),
        decreases s.len() - i,
    {
        let c = s[i];
        let d: u64 = if '0' <= c && c <= '9' {
            (c as u64) - ('0' as u64)
        } else if 'a' <= c && c <= 'f' {
            (c as u64) - ('a' as u64) + 10
        } else if 'A' <= c && c <= 'F' {
            (c as u64) - ('A' as u64) + 10
        } else {
            assert(hex_u32(s@) is None) by {
                let dd = if s@.len() > 0 && s@[0] == '+' { s@.drop_first() } else { s@ };
                assert(dd == digits);
                assert(dd[i - start] == c);
                assert(!is_hex_digit(dd[i - start]));
            }
            return None;
        };
        assert(digits.take(i - start + 1).drop_last() =~= digits.take(i - start));
        assert(digits.take(i - start + 1).last() == c);
        assert(d == hex_digit_value(c));
        let next = value * 16 + d;
        if next > 0xFFFF_FFFF {
            proof {
                lemma_hex_value_monotone(digits, i - start + 1);
            }
            i = i + 1;
            while i < s.len()
                invariant
                    start <= i <= s.len(),
                    digits == s@.skip(start as int),
                    digits == (if s@.len() > 0 && s@[0] == '+' { s@.drop_first() } else { s@ }),
                    forall|k: int| 0 <= k < i - start ==> is_hex_digit(#[trigger] digits[k]),
                    forall|k: int| i - start <= k <= digits.len() ==> hex_value(#[trigger] digits.take(k)) > u32::MAX,
                decreases s.len() - i,
            {
                let c2 = s[i];
                if !(('0' <= c2 && c2 <= '9') || ('a' <= c2 && c2 <= 'f') || ('A' <= c2 && c2 <= 'F')) {
                    assert(digits[i - start] == c2);
                    assert(!is_hex_digit(digits[i - start]));
                    assert(!(forall|k: int| 0 <= k < digits.len() ==> is_hex_digit(#[trigger] digits[k])));
                    return None;
                }
                assert(digits[i - start] == c2);
                i = i + 1;
            }
            assert(digits.take(digits.len() as int) =~= digits);
            assert(hex_value(digits) > u32::MAX);
            return None;
        }
        value = next;
        i = i + 1;
    }
    assert(digits.take(i - start) =~= digits);
    Some(value as u32)
}

/// A longer prefix of hexadecimal digits never has a smaller value.
proof fn lemma_hex_value_monotone(digits: Seq<char>, n: int)
    requires
        0 <= n <= digits.len(),
        hex_value(digits.take(n)) > u32::MAX,
    ensures
        forall|k: int| n <= k <= digits.len() ==> hex_value(#[trigger] digits.take(k)) > u32::MAX,
    decreases digits.len() - n,
{
    if n < digits.len() {
        assert(digits.take(n + 1).drop_last() =~= digits.take(n));
        lemma_hex_value_monotone(digits, n + 1);
    }
}

/// The character of a `\u{...}` escape: the code point, or U+FFFD when it is not valid.
pub open spec fn escaped_code_point(hex: Seq<char>) -> char {
    match hex_u32(hex) {
        Some(code) => if is_scalar_value(code) { code as char } else { '\u{FFFD}' },
        None => '\u{FFFD}',
    }
}

/// What follows a `\u`: with braces, the character of the code point between them (an
/// unclosed brace runs to the end), and the text after them; without, the letter 'u'.
pub open spec fn unicode_escape(rest: Seq<char>) -> (Seq<char>, Seq<char>) {
    if rest.len() > 0 && rest[0] == '{' {
        let body = rest.drop_first();
        match find(body, seq!['}']) {
            Some(j) => (seq![escaped_code_point(body.take(j))], body.skip(j + 1)),
            None => (seq![escaped_code_point(body)], seq![]),
        }
    } else {
        (seq!['u'], rest)
    }
}

/// The text with its backslash escapes resolved: `\n`, `\r`, `\t`, `\u{...}`, and any other
/// escaped character standing for itself; a final lone backslash stays.
pub open spec fn unescaped(s: Seq<char>) -> Seq<char>
    decreases s.len(),
{
    if s.len() == 0 {
        seq![]
    } else if s[0] != '\\' {
        seq![s[0]] + unescaped(s.drop_first())
    } else if s.len() == 1 {
        seq!['\\']
    } else {
        let e = s[1];
        if e == 'n' {
            seq!['\n'] + unescaped(s.skip(2))
        } else if e == 'r' {
            seq!['\r'] + unescaped(s.skip(2))
        } else if e == 't' {
            seq!['\t'] + unescaped(s.skip(2))
        } else if e == 'u' {
            let (out, rest) = unicode_escape(s.skip(2));
            proof {
                lemma_unicode_escape_len(s.skip(2));
            }
            out + unescaped(rest)
        } else {
            seq![e] + unescaped(s.skip(2))
        }
    }
}

/// What remains after a `\u` escape is no longer than what preceded it.
pub proof fn lemma_unicode_escape_len(rest: Seq<char>)
    ensures
        unicode_escape(rest).1.len() <= rest.len(),
{
    if rest.len() > 0 && rest[0] == '{' {
        let body = rest.drop_first();
        lemma_find_bounds(body, seq!['}'], 0);
    }
}

/// Resolves a `\u` escape at position `i` (just after the 'u'); returns the character(s)
/// and the position after the escape.
pub(crate) fn unicode_escape_exec(s: &Vec<char>, i: usize) -> (r: (Vec<char>, usize))
    requires
        i <= s.len(),
    ensures
        i <= r.1 <= s.len(),
        (r.0@, s@.skip(r.1 as int)) == unicode_escape(s@.skip(i as int)),
{
    let ghost rest = s@.skip(i as int);
    if i < s.len() && s[i] == '{' {
        let body = subrange_of(s, i + 1, s.len());
        assert(body@ =~= rest.drop_first());
        let close = vec!['}'];
        assert(close@ =~= seq!['}']);
        let (hex, next) = match chars_find_from(&body, &close, 0) {
            Some(j) => {
                proof {
                    lemma_find_bounds(body@, close@, 0);
                }
                let h = subrange_of(&body, 0, j);
                assert(h@ =~= body@.take(j as int));
                assert(s@.skip(i + 1 + j + 1) =~= body@.skip(j + 1));
                (h, i + 1 + j + 1)
            },
            None => {
                assert(s@.skip(s.len() as int) =~= Seq::<char>::empty());
                (body, s.len())
            },
        };
        let c = match parse_hex_u32(&hex) {
            Some(code) => match char_from_u32(code) {
                Some(ch) => ch,
                None => '\u{FFFD}',
            },
            None => '\u{FFFD}',
        };
        let out = vec![c];
        assert(out@ =~= seq![escaped_code_point(hex@)]);
        (out, next)
    } else {
        let out = vec!['u'];
        assert(out@ =~= seq!['u']);
        (out, i)
    }
}

/// Resolves the backslash escapes of a text (see `unescaped`).
pub fn unescape_string(input: &str) -> (r: String)
    ensures
        r@ == unescaped(input@),
{
    let s = chars_of(input);
    let mut out: Vec<char> = Vec::new();
    let mut i: usize = 0;
    assert(s@.skip(0) =~= s@);
    while i < s.len()
        invariant
            i <= s.len(),
            out@ + unescaped(s@.skip(i as int)) == unescaped(s@),
        decreases s.len() - i,
    {
        let ghost rest = s@.skip(i as int);
        let ghost before = out@;
        let c = s[i];
        assert(rest[0] == c);
        if c != '\\' {
            out.push(c);
            assert(rest.drop_first() =~= s@.skip(i + 1));
            i = i + 1;
        } else if i + 1 == s.len() {
            out.push('\\');
            assert(s@.skip(i + 1) =~= Seq::<char>::empty());
            i = i + 1;
        } else {
            let e = s[i + 1];
            assert(rest[1] == e);
            assert(rest.skip(2) =~= s@.skip(i + 2));
            if e == 'n' {
                out.push('\n');
                i = i + 2;
            } else if e == 'r' {
                out.push('\r');
                i = i + 2;
            } else if e == 't' {
                out.push('\t');
                i = i + 2;
            } else if e == 'u' {
                let (esc, next) = unicode_escape_exec(&s, i + 2);
                append_chars(&mut out, &esc);
                i = next;
            } else {
                out.push(e);
                i = i + 2;
            }
        }
        assert(out@ + unescaped(s@.skip(i as int)) =~= before + unescaped(rest));
    }
    assert(s@.skip(i as int) =~= Seq::<char>::empty());
    assert(out@ + unescaped(Seq::<char>::empty()) =~= out@);
    string_of(&out)
}

/// A dynamic variable key and its optional fallback (`key ?? "fallback"`): the key trimmed,
/// the fallback without its outer quotes and with its escapes resolved.
pub open spec fn variable_fallback(s: Seq<char>) -> (Seq<char>, Option<Seq<char>>) {
    match find(s, "??"@) {
        Some(i) => (trim(s.take(i)), Some(unescaped(outer_quotes_stripped(s.skip(i + "??"@.len()))))),
        None => (trim(s), None),
    }
}

/// Splits a dynamic variable key from its optional fallback (see `variable_fallback`).
pub fn extract_variable_fallback(s: &str) -> (r: (String, Option<String>))
    ensures
        (r.0@, crate::models::opt_view(r.1)) == variable_fallback(s@),
{
    let sv = chars_of(s);
    let pat = chars_of("??");
    match chars_find_from(&sv, &pat, 0) {
        Some(i) => {
            proof {
                lemma_find_bounds(sv@, pat@, 0);
            }
            let k = chars_trim(&subrange_of(&sv, 0, i));
            let f = subrange_of(&sv, i + pat.len(), sv.len());
            assert(sv@.subrange(0, i as int) =~= sv@.take(i as int));
            assert(f@ =~= sv@.skip(i + pat@.len()));
            let stripped = strip_outer_quotes(string_of(&f).as_str());
            (string_of(&k), Some(unescape_string(stripped.as_str())))
        },
        None => (string_of(&chars_trim(&sv)), None),
    }
}

/// The text without quote characters at either end.
pub open spec fn quotes_trimmed(s: Seq<char>) -> Seq<char>
    decreases s.len(),
{
    if s.len() > 0 && is_quote(s[0]) {
        quotes_trimmed(s.drop_first())
    } else if s.len() > 0 && is_quote(s.last()) {
        quotes_trimmed(s.drop_last())
    } else {
        s
    }
}

/// Removes quote characters at either end.
pub(crate) fn trim_quotes(s: &Vec<char>) -> (r: Vec<char>)
    ensures
        r@ == quotes_trimmed(s@),
{
    let mut lo: usize = 0;
    let mut hi: usize = s.len();
    assert(s@.subrange(0, s.len() as int) =~= s@);
    while lo < hi && (s[lo] == '"' || s[lo] == '\'' || s[lo] == '`' || s[hi - 1] == '"' || s[hi - 1] == '\'' || s[hi - 1] == '`')
        invariant
            lo <= hi <= s.len(),
            quotes_trimmed(s@) == quotes_trimmed(s@.subrange(lo as int, hi as int)),
        decreases hi - lo,
    {
        let ghost t = s@.subrange(lo as int, hi as int);
        if s[lo] == '"' || s[lo] == '\'' || s[lo] == '`' {
            assert(t.drop_first() =~= s@.subrange(lo + 1, hi as int));
            lo = lo + 1;
        } else {
            assert(t.drop_last() =~= s@.subrange(lo as int, hi - 1));
            hi = hi - 1;
        }
    }
    subrange_of(s, lo, hi)
}

/// A piece of a tag: a literal, or a dynamic variable with an optional fallback.
#[derive(Debug, Clone, PartialEq, Eq)]
pub enum TagSegment {
    /// A static string literal.
    Literal(String),
    /// A dynamic variable lookup key.
    Variable {
        /// The key of the variable in the context.
        key: String,
        /// The fallback when the variable is missing.
        fallback: Option<String>,
    },
}

/// The plain-value model of a tag segment: `Ok(literal)` or `Err((key, fallback))`.
pub open spec fn segment_model(t: TagSegment) -> Result<Seq<char>, (Seq<char>, Option<Seq<char>>)> {
    match t {
        TagSegment::Literal(s) => Ok(s@),
        TagSegment::Variable { key, fallback } => Err((key@, crate::models::opt_view(fallback))),
    }
}

/// How a tag piece reads: trimmed, a '$' makes it a variable (lower-cased key, and an
/// optional `?? fallback` without quotes at its ends, escapes resolved); else a literal.
#[verifier::opaque]
pub open spec fn parsed_segment(s: Seq<char>) -> Result<Seq<char>, (Seq<char>, Option<Seq<char>>)> {
    let t = trim(s);
    if t.len() > 0 && t[0] == '$' {
        let var = t.drop_first();
        match find(var, "??"@) {
            Some(i) => Err((
                unicode_lowercase(trim(var.take(i))),
                Some(unescaped(quotes_trimmed(trim(var.skip(i + "??"@.len()))))),
            )),
            None => Err((unicode_lowercase(trim(var)), None)),
        }
    } else {
        Ok(t)
    }
}

impl TagSegment {
    /// Reads a tag piece (see `parsed_segment`).
    pub fn parse(s: &str) -> (r: Self)
        ensures
            segment_model(r) == parsed_segment(s@),
    {
        proof {
            reveal(parsed_segment);
        }
        let t = chars_trim(&chars_of(s));
        if t.len() > 0 && t[0] == '$' {
            let var = subrange_of(&t, 1, t.len());
            assert(var@ =~= t@.drop_first());
            let pat = chars_of("??");
            match chars_find_from(&var, &pat, 0) {
                Some(i) => {
                    proof {
                        lemma_find_bounds(var@, pat@, 0);
                    }
                    let k = chars_trim(&subrange_of(&var, 0, i));
                    assert(var@.subrange(0, i as int) =~= var@.take(i as int));
                    let f = subrange_of(&var, i + pat.len(), var.len());
                    assert(f@ =~= var@.skip(i + pat@.len()));
                    let fb = trim_quotes(&chars_trim(&f));
                    TagSegment::Variable {
                        key: str_to_lowercase(string_of(&k).as_str()),
                        fallback: Some(unescape_string(string_of(&fb).as_str())),
                    }
                },
                None => TagSegment::Variable {
                    key: str_to_lowercase(string_of(&chars_trim(&var)).as_str()),
                    fallback: None,
                },
            }
        } else {
            TagSegment::Literal(string_of(&t))
        }
    }
}

// ---------------------------------------------------------------------------
// Words and characters
// ---------------------------------------------------------------------------

/// The words that count as articles in a tag.
pub open spec fn tag_articles() -> Seq<Seq<char>> {
    seq!["a"@, "an"@, "the"@, "this"@, "that"@, "another"@, "one"@, "one of"@, "one of the"@, "some"@]
}

/// Whether a word is an article (ASCII case ignored).
pub open spec fn is_article_word(s: Seq<char>) -> bool {
    exists|i: int| 0 <= i < tag_articles().len() && eq_ignore_ascii_case(s, #[trigger] tag_articles()[i])
}

/// Whether a word is an article (see `is_article_word`).
pub fn is_article(s: &str) -> (r: bool)
    ensures
        r == is_article_word(s@),
{
    let sv = chars_of(s);
    let arts = vec![
        chars_of("a"), chars_of("an"), chars_of("the"), chars_of("this"), chars_of("that"),
        chars_of("another"), chars_of("one"), chars_of("one of"), chars_of("one of the"),
        chars_of("some"),
    ];
    assert(views(arts@) =~= tag_articles());
    let mut i: usize = 0;
    while i < arts.len()
        invariant
            i <= arts.len(),
            views(arts@) == tag_articles(),
            sv@ == s@,
            forall|k: int| 0 <= k < i ==> !eq_ignore_ascii_case(sv@, #[trigger] tag_articles()[k]),
        decreases arts.len() - i,
    {
        assert(tag_articles()[i as int] == arts@[i as int]@);
        if chars_eq_ignore_ascii_case(&sv, &arts[i]) {
            return true;
        }
        i = i + 1;
    }
    false
}

/// Whether a word is an indefinite article ("a" or "an", ASCII case ignored).
pub fn is_indefinite_article(s: &str) -> (r: bool)
    ensures
        r == (eq_ignore_ascii_case(s@, "a"@) || eq_ignore_ascii_case(s@, "an"@)),
{
    let sv = chars_of(s);
    chars_eq_ignore_ascii_case(&sv, &chars_of("a")) || chars_eq_ignore_ascii_case(&sv, &chars_of("an"))
}

/// Whether a character can be escaped with a backslash: the tag delimiters and the escape.
pub fn is_escapable_char(c: char) -> (r: bool)
    ensures
        r == (c == TAG_ENTITY_OPEN || c == TAG_VERB_OPEN || c == TAG_ENTITY_CLOSE || c == TAG_VERB_CLOSE || c == TAG_ESCAPE),
{
    c == TAG_ENTITY_OPEN || c == TAG_VERB_OPEN || c == TAG_ENTITY_CLOSE || c == TAG_VERB_CLOSE || c == TAG_ESCAPE
}

/// Whether the first character of a text is upper case.
pub fn is_capitalized(s: &str) -> (r: bool)
    ensures
        r == (s@.len() > 0 && char_has_uppercase_property(s@[0])),
{
    let sv = chars_of(s);
    sv.len() > 0 && char_is_uppercase(sv[0])
}

/// Whether a text has letters and all of them are upper case.
pub open spec fn all_caps_text(s: Seq<char>) -> bool {
    &&& exists|i: int| 0 <= i < s.len() && char_has_alphabetic_property(#[trigger] s[i])
    &&& forall|i: int| 0 <= i < s.len() && char_has_alphabetic_property(#[trigger] s[i]) ==> char_has_uppercase_property(s[i])
}

/// Whether a text has letters and all of them are upper case.
pub fn is_all_caps(s: &str) -> (r: bool)
    ensures
        r == all_caps_text(s@),
{
    let sv = chars_of(s);
    let mut has_letters = false;
    let mut all_upper = true;
    let mut i: usize = 0;
    while i < sv.len()
        invariant
            i <= sv.len(),
            has_letters == exists|k: int| 0 <= k < i && char_has_alphabetic_property(#[trigger] sv@[k]),
            all_upper == forall|k: int| 0 <= k < i && char_has_alphabetic_property(#[trigger] sv@[k]) ==> char_has_uppercase_property(sv@[k]),
        decreases sv.len() - i,
    {
        if char_is_alphabetic(sv[i]) {
            has_letters = true;
            if !char_is_uppercase(sv[i]) {
                all_upper = false;
            }
        }
        i = i + 1;
    }
    has_letters && all_upper
}

/// The possessive suffixes that a tag key may end with, in the order they are tried.
pub open spec fn possessive_suffixes() -> Seq<Seq<char>> {
    seq!["'s"@, "'S"@, "\u{2019}s"@, "\u{2019}S"@, "'"@, "\u{2019}"@]
}

/// The first of the suffixes that the text ends with.
pub open spec fn first_suffix(s: Seq<char>, ps: Seq<Seq<char>>) -> Option<Seq<char>>
    decreases ps.len(),
{
    if ps.len() == 0 {
        None
    } else if ends_with(s, ps[0]) {
        Some(ps[0])
    } else {
        first_suffix(s, ps.drop_first())
    }
}

/// A key without its possessive suffix, and whether it had one.
pub open spec fn possessive_stripped(s: Seq<char>) -> (Seq<char>, bool) {
    match first_suffix(s, possessive_suffixes()) {
        Some(p) => (s.take(s.len() - p.len()), true),
        None => (s, false),
    }
}

proof fn lemma_first_suffix(s: Seq<char>, ps: Seq<Seq<char>>)
    ensures
        match first_suffix(s, ps) {
            Some(p) => ends_with(s, p),
            None => true,
        },
    decreases ps.len(),
{
    if ps.len() > 0 && !ends_with(s, ps[0]) {
        lemma_first_suffix(s, ps.drop_first());
    }
}

/// Removes a possessive suffix ("'s", "'S", "’s", "’S", "'", "’") from a key.
pub fn parse_possessive_suffix(s: &str) -> (r: (String, bool))
    ensures
        (r.0@, r.1) == possessive_stripped(s@),
{
    let sv = chars_of(s);
    let suffixes = vec![
        chars_of("'s"), chars_of("'S"), chars_of("\u{2019}s"), chars_of("\u{2019}S"), chars_of("'"),
        chars_of("\u{2019}"),
    ];
    let ghost ps = possessive_suffixes();
    assert(views(suffixes@) =~= ps);
    let mut i: usize = 0;
    assert(ps.skip(0) =~= ps);
    while i < suffixes.len()
        invariant
            i <= suffixes.len(),
            views(suffixes@) == ps,
            ps == possessive_suffixes(),
            sv@ == s@,
            first_suffix(sv@, ps) == first_suffix(sv@, ps.skip(i as int)),
        decreases suffixes.len() - i,
    {
        assert(ps.skip(i as int).drop_first() =~= ps.skip(i + 1));
        assert(ps.skip(i as int)[0] == suffixes@[i as int]@);
        if crate::text::chars_ends_with(&sv, &suffixes[i]) {
            proof {
                lemma_first_suffix(sv@, ps);
            }
            let stripped = subrange_of(&sv, 0, sv.len() - suffixes[i].len());
            assert(stripped@ =~= sv@.take(sv@.len() - suffixes@[i as int]@.len()));
            return (string_of(&stripped), true);
        }
        i = i + 1;
    }
    assert(ps.skip(i as int) =~= Seq::<Seq<char>>::empty());
    (string_of(&sv), false)
}

/// The number of bytes that UTF-8 uses for a character.
pub open spec fn utf8_width(c: char) -> nat {
    if (c as u32) < 0x80 {
        1
    } else if (c as u32) < 0x800 {
        2
    } else if (c as u32) < 0x10000 {
        3
    } else {
        4
    }
}

/// The number of bytes of a text in UTF-8.
pub open spec fn utf8_len(s: Seq<char>) -> nat
    decreases s.len(),
{
    if s.len() == 0 {
        0
    } else {
        utf8_len(s.drop_last()) + utf8_width(s.last())
    }
}

proof fn lemma_utf8_len_prefix(s: Seq<char>, i: int)
    requires
        0 <= i <= s.len(),
    ensures
        utf8_len(s.take(i)) <= utf8_len(s),
    decreases s.len() - i,
{
    if i < s.len() {
        lemma_utf8_len_prefix(s, i + 1);
        assert(s.take(i + 1).drop_last() =~= s.take(i));
    } else {
        assert(s.take(i) =~= s);
    }
}

/// The byte offset at which the character at position `i` starts.
pub(crate) fn byte_offset(s: &Vec<char>, i: usize) -> (r: usize)
    requires
        i <= s.len(),
        utf8_len(s@) <= usize::MAX,
    ensures
        r == utf8_len(s@.take(i as int)),
{
    let mut n: usize = 0;
    let mut k: usize = 0;
    assert(s@.take(0) =~= Seq::<char>::empty());
    while k < i
        invariant
            k <= i <= s.len(),
            utf8_len(s@) <= usize::MAX,
            n == utf8_len(s@.take(k as int)),
        decreases i - k,
    {
        proof {
            lemma_utf8_len_prefix(s@, k + 1);
        }
        assert(s@.take(k + 1).drop_last() =~= s@.take(k as int));
        let c = s[k] as u32;
        let w: usize = if c < 0x80 { 1 } else if c < 0x800 { 2 } else if c < 0x10000 { 3 } else { 4 };
        n = n + w;
        k = k + 1;
    }
    n
}

/// The spaced possessive markers that a tag may hold, with their lengths in bytes.
pub open spec fn spaced_possessives() -> Seq<(Seq<char>, usize)> {
    seq![("'s "@, 3usize), ("'S "@, 3usize), ("\u{2019}s "@, 5usize), ("\u{2019}S "@, 5usize), ("' "@, 2usize), ("\u{2019} "@, 4usize)]
}

/// The first marker kind (in order) that occurs in the text: its byte offset and byte length.
pub open spec fn first_spaced_possessive(s: Seq<char>, ms: Seq<(Seq<char>, usize)>) -> Option<(nat, usize)>
    decreases ms.len(),
{
    if ms.len() == 0 {
        None
    } else {
        match find(s, ms[0].0) {
            Some(i) => Some((utf8_len(s.take(i)), ms[0].1)),
            None => first_spaced_possessive(s, ms.drop_first()),
        }
    }
}

/// Finds a possessive marker followed by a space ("'s ", "'S ", "’s ", "’S ", "' ", "’ "):
/// the byte offset of the first occurrence of the first kind that occurs, and the marker's
/// length in bytes.
pub fn find_spaced_possessive(s: &str) -> (r: Option<(usize, usize)>)
    requires
        utf8_len(s@) <= usize::MAX,
    ensures
        match r {
            Some((i, n)) => first_spaced_possessive(s@, spaced_possessives()) == Some((i as nat, n)),
            None => first_spaced_possessive(s@, spaced_possessives()) is None,
        },
{
    let sv = chars_of(s);
    let markers = vec![
        (chars_of("'s "), 3usize), (chars_of("'S "), 3usize), (chars_of("\u{2019}s "), 5usize),
        (chars_of("\u{2019}S "), 5usize), (chars_of("' "), 2usize), (chars_of("\u{2019} "), 4usize),
    ];
    let ghost ms = spaced_possessives();
    assert(markers@.map_values(|m: (Vec<char>, usize)| (m.0@, m.1)) =~= ms);
    let mut k: usize = 0;
    assert(ms.skip(0) =~= ms);
    while k < markers.len()
        invariant
            k <= markers.len(),
            markers@.map_values(|m: (Vec<char>, usize)| (m.0@, m.1)) == ms,
            ms == spaced_possessives(),
            utf8_len(sv@) <= usize::MAX,
            sv@ == s@,
            first_spaced_possessive(sv@, ms) == first_spaced_possessive(sv@, ms.skip(k as int)),
        decreases markers.len() - k,
    {
        assert(ms.skip(k as int).drop_first() =~= ms.skip(k + 1));
        assert(ms.skip(k as int)[0] == (markers@[k as int].0@, markers@[k as int].1));
        match chars_find_from(&sv, &markers[k].0, 0) {
            Some(i) => {
                proof {
                    lemma_find_bounds(sv@, markers@[k as int].0@, 0);
                }
                return Some((byte_offset(&sv, i), markers[k].1));
            },
            None => {},
        }
        k = k + 1;
    }
    assert(ms.skip(k as int) =~= Seq::<(Seq<char>, usize)>::empty());
    None
}

/// The first marker kind (in order) that occurs in the text: the position of its first
/// occurrence and its length, both in characters.
pub open spec fn first_spaced_marker(s: Seq<char>, ms: Seq<(Seq<char>, usize)>) -> Option<(int, int)>
    decreases ms.len(),
{
    if ms.len() == 0 {
        None
    } else {
        match find(s, ms[0].0) {
            Some(i) => Some((i, ms[0].0.len() as int)),
            None => first_spaced_marker(s, ms.drop_first()),
        }
    }
}

/// Finds a possessive marker followed by a space (see `find_spaced_possessive`), as a
/// character position and a length in characters.
pub fn find_spaced_marker(s: &Vec<char>) -> (r: Option<(usize, usize)>)
    ensures
        match r {
            Some((i, n)) => first_spaced_marker(s@, spaced_possessives()) == Some((i as int, n as int)) && i + n <= s.len(),
            None => first_spaced_marker(s@, spaced_possessives()) is None,
        },
{
    let markers = vec![
        chars_of("'s "), chars_of("'S "), chars_of("\u{2019}s "), chars_of("\u{2019}S "), chars_of("' "),
        chars_of("\u{2019} "),
    ];
    let ghost ms = spaced_possessives();
    assert(views(markers@) =~= ms.map_values(|m: (Seq<char>, usize)| m.0));
    let mut k: usize = 0;
    assert(ms.skip(0) =~= ms);
    while k < markers.len()
        invariant
            k <= markers.len(),
            views(markers@) == ms.map_values(|m: (Seq<char>, usize)| m.0),
            ms == spaced_possessives(),
            markers.len() == ms.len(),
            first_spaced_marker(s@, ms) == first_spaced_marker(s@, ms.skip(k as int)),
        decreases markers.len() - k,
    {
        assert(ms.skip(k as int).drop_first() =~= ms.skip(k + 1));
        assert(ms.skip(k as int)[0].0 == ms.map_values(|m: (Seq<char>, usize)| m.0)[k as int]);
        match chars_find_from(s, &markers[k], 0) {
            Some(i) => {
                proof {
                    lemma_find_bounds(s@, markers@[k as int]@, 0);
                }
                return Some((i, markers[k].len()));
            },
            None => {},
        }
        k = k + 1;
    }
    assert(ms.skip(k as int) =~= Seq::<(Seq<char>, usize)>::empty());
    None
}

// ---------------------------------------------------------------------------
// Scanning to the end of a tag
// ---------------------------------------------------------------------------

/// The quote that a character opens outside quotes: a double quote or a backtick always, a
/// single quote unless it follows a letter or digit (an apostrophe).
pub open spec fn opened_quote(ch: char, prev: char) -> Option<char> {
    if ch == '\'' {
        if !char_has_alphanumeric_property(prev) { Some(ch) } else { None }
    } else if ch == '"' || ch == '`' {
        Some(ch)
    } else {
        None
    }
}

/// Scans the (byte index, character) pairs from position `i` for the closing delimiter of a
/// tag, skipping escaped characters and quoted text: the byte index of the delimiter and
/// the position after it, or `None` when the text ends first.
pub open spec fn scan_to_close(cs: Seq<(usize, char)>, i: int, close: char, escaped: bool, quote: Option<char>, prev: char) -> Option<(usize, int)>
    decreases cs.len() - i,
{
    if i < 0 || i >= cs.len() {
        None
    } else {
        let j = cs[i].0;
        let ch = cs[i].1;
        if escaped {
            scan_to_close(cs, i + 1, close, false, quote, ch)
        } else if ch == '\\' {
            scan_to_close(cs, i + 1, close, true, quote, ch)
        } else {
            match quote {
                Some(q) => scan_to_close(cs, i + 1, close, false, if ch == q { None } else { Some(q) }, ch),
                None => if ch == close {
                    Some((j, i + 1))
                } else {
                    scan_to_close(cs, i + 1, close, false, opened_quote(ch, prev), ch)
                },
            }
        }
    }
}

/// Scans from position `i` for the `%}` that closes a control tag, skipping escaped
/// characters and quoted text: the byte index of the '%' and the position after it (the
/// '}' is left), or `None` when the text ends first.
pub open spec fn scan_to_control_close(cs: Seq<(usize, char)>, i: int, escaped: bool, quote: Option<char>, prev: char) -> Option<(usize, int)>
    decreases cs.len() - i,
{
    if i < 0 || i >= cs.len() {
        None
    } else {
        let j = cs[i].0;
        let ch = cs[i].1;
        if escaped {
            scan_to_control_close(cs, i + 1, false, quote, ch)
        } else if ch == '\\' {
            scan_to_control_close(cs, i + 1, true, quote, ch)
        } else {
            match quote {
                Some(q) => scan_to_control_close(cs, i + 1, false, if ch == q { None } else { Some(q) }, ch),
                None => if ch == '%' && i + 1 < cs.len() && cs[i + 1].1 == '}' {
                    Some((j, i + 1))
                } else {
                    scan_to_control_close(cs, i + 1, false, opened_quote(ch, prev), ch)
                },
            }
        }
    }
}

/// The quote that a character opens outside quotes (see `opened_quote`).
fn opened_quote_exec(ch: char, prev: char) -> (r: Option<char>)
    ensures
        r == opened_quote(ch, prev),
{
    if ch == '\'' {
        if !char_is_alphanumeric(prev) { Some(ch) } else { None }
    } else if ch == '"' || ch == '`' {
        Some(ch)
    } else {
        None
    }
}

/// The message for a tag that is never closed.
pub open spec fn unclosed_message(tag_type: Seq<char>, start_idx: usize) -> Seq<char> {
    "Unclosed "@ + tag_type + " starting at index "@ + decimal(start_idx as nat)
}

/// Consumes the characters up to and including the delimiter that closes a tag (see
/// `scan_to_close`) and returns the delimiter's byte index; an unclosed tag consumes
/// everything and is an error.
pub fn consume_until_closed(chars: &Vec<(usize, char)>, pos: &mut usize, start_idx: usize, close_char: char, tag_type: &str) -> (r: Result<usize, String>)
    requires
        *old(pos) <= chars@.len(),
    ensures
        match scan_to_close(chars@, *old(pos) as int, close_char, false, None, '\0') {
            Some((j, next)) => r == Ok::<usize, String>(j) && *final(pos) == next,
            None => r matches Err(e) && e@ == unclosed_message(tag_type@, start_idx) && *final(pos) == chars@.len(),
        },
{
    let ghost goal = scan_to_close(chars@, *pos as int, close_char, false, None, '\0');
    let mut escaped = false;
    let mut in_quote: Option<char> = None;
    let mut prev_ch = '\0';
    while *pos < chars.len()
        invariant
            *pos <= chars@.len(),
            scan_to_close(chars@, *pos as int, close_char, escaped, in_quote, prev_ch) == goal,
            goal == scan_to_close(chars@, *old(pos) as int, close_char, false, None, '\0'),
        decreases chars@.len() - *pos,
    {
        let (j, ch) = chars[*pos];
        *pos = *pos + 1;
        if escaped {
            escaped = false;
            prev_ch = ch;
        } else if ch == '\\' {
            escaped = true;
            prev_ch = ch;
        } else {
            match in_quote {
                Some(q) => {
                    if ch == q {
                        in_quote = None;
                    }
                    prev_ch = ch;
                },
                None => {
                    if ch == close_char {
                        return Ok(j);
                    }
                    in_quote = opened_quote_exec(ch, prev_ch);
                    prev_ch = ch;
                },
            }
        }
    }
    let mut msg = chars_of("Unclosed ");
    append_str(&mut msg, tag_type);
    append_str(&mut msg, " starting at index ");
    append_str(&mut msg, usize_to_string(start_idx).as_str());
    Err(string_of(&msg))
}

/// Consumes the characters of a control tag up to and including the '%' of its closing
/// `%}` (see `scan_to_control_close`) and returns that '%'s byte index; an unclosed tag
/// consumes everything and is an error.
pub fn consume_control_tag(chars: &Vec<(usize, char)>, pos: &mut usize, start_idx: usize) -> (r: Result<usize, String>)
    requires
        *old(pos) <= chars@.len(),
    ensures
        match scan_to_control_close(chars@, *old(pos) as int, false, None, '\0') {
            Some((j, next)) => r == Ok::<usize, String>(j) && *final(pos) == next,
            None => r matches Err(e) && e@ == unclosed_message("control tag"@, start_idx) && *final(pos) == chars@.len(),
        },
{
    let ghost goal = scan_to_control_close(chars@, *pos as int, false, None, '\0');
    let mut escaped = false;
    let mut in_quote: Option<char> = None;
    let mut prev_ch = '\0';
    while *pos < chars.len()
        invariant
            *pos <= chars@.len(),
            scan_to_control_close(chars@, *pos as int, escaped, in_quote, prev_ch) == goal,
            goal == scan_to_control_close(chars@, *old(pos) as int, false, None, '\0'),
        decreases chars@.len() - *pos,
    {
        let (j, ch) = chars[*pos];
        let i = *pos;
        *pos = *pos + 1;
        if escaped {
            escaped = false;
            prev_ch = ch;
        } else if ch == '\\' {
            escaped = true;
            prev_ch = ch;
        } else {
            match in_quote {
                Some(q) => {
                    if ch == q {
                        in_quote = None;
                    }
                    prev_ch = ch;
                },
                None => {
                    if ch == '%' && i + 1 < chars.len() && chars[i + 1].1 == '}' {
                        return Ok(j);
                    }
                    in_quote = opened_quote_exec(ch, prev_ch);
                    prev_ch = ch;
                },
            }
        }
    }
    let mut msg = chars_of("Unclosed ");
    append_str(&mut msg, "control tag");
    append_str(&mut msg, " starting at index ");
    append_str(&mut msg, usize_to_string(start_idx).as_str());
    Err(string_of(&msg))
}

} // verus!
