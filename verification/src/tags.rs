//! Reading one tag of a template: an entity tag (`{the:source's:obj}`), a verb tag
//! (`[source:pulse]`) or a variable tag (`{$weather ?? "clear"}`), into the token it stands
//! for, or the message that rejects it.
use vstd::prelude::*;
use crate::engine::opt_str_view;
use crate::grammar::string_views;
use crate::models::opt_view;
use crate::parser::{
    all_caps_text, find_spaced_marker, first_spaced_marker, forced_conjugations, is_article,
    is_article_word, is_all_caps, is_capitalized, is_indefinite_article, is_p_type,
    is_pronoun_type, no_flags, parse_forced_conjugations, parse_possessive_suffix,
    parse_stance_prefixes, parsed_segment, possessive_stripped, quotes_trimmed, reject_if,
    segment_model, spaced_possessives, split_tag, stance_prefixes, tag_parts, trim_quotes, unescape_string,
    unescaped, validate_property_segments, validation_error, validation_message, TagFlags,
    TagSegment, TAG_ENTITY_OPEN, TAG_PROPERTY_SEP, TAG_SEPARATOR, TAG_VERB_OPEN, VERB_FORM_SEP,
};
use crate::text::{
    char_has_uppercase_property, chars_find_from, chars_of, chars_trim, eq_ignore_ascii_case,
    find, last_char_index, lemma_find_bounds, rfind_char, split_chars, split_on, str_eq,
    str_to_lowercase, string_of, subrange_of, trim, trim_start, unicode_lowercase, views,
    chars_trim_start,
};

verus! {

// ---------------------------------------------------------------------------
// Tokens
// ---------------------------------------------------------------------------

/// The token that one tag of a template stands for.
pub enum TagToken {
    /// An entity reference, e.g. `{source}`, `{a:source}`, `{the:target:obj}` or
    /// `{source's glowing target}`.
    EntityRef {
        /// The key of the entity in the context.
        key: TagSegment,
        /// The article to put before the name, if any.
        article: Option<TagSegment>,
        /// The pronoun type asked for ("subj", "obj", "poss", "abs_poss", "reflex"), if any.
        p_type: Option<TagSegment>,
        /// The owner's key in a narrative possessive (`source` in `{source's target}`).
        owner_key: Option<TagSegment>,
        /// The modifiers of the owner.
        owner_flags: TagFlags,
        /// The adjectives between the owner and the target, if any.
        adjectives: Option<TagSegment>,
        /// The modifiers of the tag.
        flags: TagFlags,
    },
    /// A verb reference, e.g. `[source:pulse]`.
    VerbRef {
        /// The subject whose person and number the verb agrees with, if any.
        subject_key: Option<TagSegment>,
        /// The verb as written.
        original_verb: String,
        /// The verb in lower case, for dictionary lookups.
        lower_verb: String,
        /// A variable whose value is the verb, if any.
        dynamic_key: Option<String>,
        /// The text used when that variable is missing, if any.
        dynamic_fallback: Option<String>,
        /// Forced present forms, if any (the base verb not included).
        forced_present: Option<Vec<String>>,
        /// Forced past forms, if any.
        forced_past: Option<Vec<String>>,
        /// The modifiers of the tag.
        flags: TagFlags,
    },
    /// A variable reference, e.g. `{$weather}`.
    VariableRef {
        /// The key of the variable.
        key: String,
        /// The text used when the variable is missing, if any.
        fallback: Option<String>,
        /// The modifiers of the tag.
        flags: TagFlags,
    },
    /// Forces a new sentence boundary.
    SentenceBreak,
    /// Keeps the next sentence boundary from capitalising.
    NoSentenceBreak,
}

/// The plain-value model of a token.
pub enum TokenModel {
    /// An entity reference.
    Entity {
        /// The key.
        key: Result<Seq<char>, (Seq<char>, Option<Seq<char>>)>,
        /// The article.
        article: Option<Result<Seq<char>, (Seq<char>, Option<Seq<char>>)>>,
        /// The pronoun type.
        p_type: Option<Result<Seq<char>, (Seq<char>, Option<Seq<char>>)>>,
        /// The owner's key.
        owner_key: Option<Result<Seq<char>, (Seq<char>, Option<Seq<char>>)>>,
        /// The modifiers of the owner.
        owner_flags: TagFlags,
        /// The adjectives.
        adjectives: Option<Result<Seq<char>, (Seq<char>, Option<Seq<char>>)>>,
        /// The modifiers.
        flags: TagFlags,
    },
    /// A verb reference.
    Verb {
        /// The subject key.
        subject_key: Option<Result<Seq<char>, (Seq<char>, Option<Seq<char>>)>>,
        /// The verb as written.
        original_verb: Seq<char>,
        /// The verb in lower case.
        lower_verb: Seq<char>,
        /// The variable naming the verb.
        dynamic_key: Option<Seq<char>>,
        /// Its fallback.
        dynamic_fallback: Option<Seq<char>>,
        /// Forced present forms.
        forced_present: Option<Seq<Seq<char>>>,
        /// Forced past forms.
        forced_past: Option<Seq<Seq<char>>>,
        /// The modifiers.
        flags: TagFlags,
    },
    /// A variable reference.
    Variable {
        /// The key.
        key: Seq<char>,
        /// The fallback.
        fallback: Option<Seq<char>>,
        /// The modifiers.
        flags: TagFlags,
    },
    /// A sentence break.
    SentenceBreak,
    /// A suppressed sentence break.
    NoSentenceBreak,
}

/// The model of an optional tag segment.
pub open spec fn opt_segment(o: Option<TagSegment>) -> Option<Result<Seq<char>, (Seq<char>, Option<Seq<char>>)>> {
    match o {
        Some(t) => Some(segment_model(t)),
        None => None,
    }
}

/// The model of an optional list of strings.
pub open spec fn opt_strings(o: Option<Vec<String>>) -> Option<Seq<Seq<char>>> {
    match o {
        Some(v) => Some(string_views(v@)),
        None => None,
    }
}

/// The model of a token.
pub open spec fn token_model(t: TagToken) -> TokenModel {
    match t {
        TagToken::EntityRef { key, article, p_type, owner_key, owner_flags, adjectives, flags } => TokenModel::Entity {
            key: segment_model(key),
            article: opt_segment(article),
            p_type: opt_segment(p_type),
            owner_key: opt_segment(owner_key),
            owner_flags,
            adjectives: opt_segment(adjectives),
            flags,
        },
        TagToken::VerbRef { subject_key, original_verb, lower_verb, dynamic_key, dynamic_fallback, forced_present, forced_past, flags } => TokenModel::Verb {
            subject_key: opt_segment(subject_key),
            original_verb: original_verb@,
            lower_verb: lower_verb@,
            dynamic_key: opt_view(dynamic_key),
            dynamic_fallback: opt_view(dynamic_fallback),
            forced_present: opt_strings(forced_present),
            forced_past: opt_strings(forced_past),
            flags,
        },
        TagToken::VariableRef { key, fallback, flags } => TokenModel::Variable { key: key@, fallback: opt_view(fallback), flags },
        TagToken::SentenceBreak => TokenModel::SentenceBreak,
        TagToken::NoSentenceBreak => TokenModel::NoSentenceBreak,
    }
}

// ---------------------------------------------------------------------------
// Flags and pieces
// ---------------------------------------------------------------------------

/// Every modifier set in either of the flag sets.
pub open spec fn flags_union(a: TagFlags, b: TagFlags) -> TagFlags {
    TagFlags {
        is_capitalized: a.is_capitalized || b.is_capitalized,
        force_article: a.force_article || b.force_article,
        force_3rd_person: a.force_3rd_person || b.force_3rd_person,
        is_possessive: a.is_possessive || b.is_possessive,
        no_smart: a.no_smart || b.no_smart,
        force_singular: a.force_singular || b.force_singular,
        article_indefinite: a.article_indefinite || b.article_indefinite,
        article_capitalized: a.article_capitalized || b.article_capitalized,
        prefer_noun: a.prefer_noun || b.prefer_noun,
        allow_ambiguous_you: a.allow_ambiguous_you || b.allow_ambiguous_you,
        extract_group_member: a.extract_group_member || b.extract_group_member,
        pronoun_capitalized: a.pronoun_capitalized || b.pronoun_capitalized,
        all_caps: a.all_caps || b.all_caps,
        drop_possessive: a.drop_possessive || b.drop_possessive,
    }
}

/// Sets every modifier that either flag set has (see `flags_union`).
pub fn merge_flags(a: TagFlags, b: TagFlags) -> (r: TagFlags)
    ensures
        r == flags_union(a, b),
{
    TagFlags {
        is_capitalized: a.is_capitalized || b.is_capitalized,
        force_article: a.force_article || b.force_article,
        force_3rd_person: a.force_3rd_person || b.force_3rd_person,
        is_possessive: a.is_possessive || b.is_possessive,
        no_smart: a.no_smart || b.no_smart,
        force_singular: a.force_singular || b.force_singular,
        article_indefinite: a.article_indefinite || b.article_indefinite,
        article_capitalized: a.article_capitalized || b.article_capitalized,
        prefer_noun: a.prefer_noun || b.prefer_noun,
        allow_ambiguous_you: a.allow_ambiguous_you || b.allow_ambiguous_you,
        extract_group_member: a.extract_group_member || b.extract_group_member,
        pronoun_capitalized: a.pronoun_capitalized || b.pronoun_capitalized,
        all_caps: a.all_caps || b.all_caps,
        drop_possessive: a.drop_possessive || b.drop_possessive,
    }
}

/// Whether the first character of a text is upper case.
pub open spec fn capitalized_text(s: Seq<char>) -> bool {
    s.len() > 0 && char_has_uppercase_property(s[0])
}

/// Whether a property path has an empty segment.
pub open spec fn has_empty_segment(path: Seq<char>) -> bool {
    exists|i: int| 0 <= i < split_on(path, TAG_PROPERTY_SEP).len() && (#[trigger] split_on(path, TAG_PROPERTY_SEP)[i]).len() == 0
}

/// The pieces of an entity tag between separators, trimmed.
pub open spec fn entity_parts(content: Seq<char>) -> Seq<Seq<char>> {
    split_on(content, TAG_SEPARATOR).map_values(|p: Seq<char>| trim(p))
}

/// Splits an entity tag at its separators and trims the pieces (see `entity_parts`).
fn trimmed_parts(content: &str) -> (r: Vec<String>)
    ensures
        string_views(r@) == entity_parts(content@),
{
    let pieces = split_chars(&chars_of(content), TAG_SEPARATOR);
    let ghost parts = entity_parts(content@);
    let mut out: Vec<String> = Vec::new();
    let mut i: usize = 0;
    while i < pieces.len()
        invariant
            i <= pieces.len(),
            views(pieces@) == split_on(content@, TAG_SEPARATOR),
            parts == entity_parts(content@),
            string_views(out@) == parts.take(i as int),
        decreases pieces.len() - i,
    {
        let t = chars_trim(&pieces[i]);
        assert(parts[i as int] == t@);
        let ghost before = string_views(out@);
        out.push(string_of(&t));
        assert(string_views(out@) =~= before.push(t@));
        assert(parts.take(i + 1) =~= parts.take(i as int).push(parts[i as int]));
        i = i + 1;
    }
    assert(parts.take(i as int) =~= parts);
    out
}

// ---------------------------------------------------------------------------
// Entity tags
// ---------------------------------------------------------------------------

/// The message that rejects an entity tag.
pub open spec fn entity_error(message: Seq<char>, content: Seq<char>) -> Seq<char> {
    validation_message(message, content, TAG_ENTITY_OPEN)
}

/// A non-empty piece, or none.
pub open spec fn non_empty(p: Seq<char>) -> Option<Seq<char>> {
    if p.len() == 0 { None } else { Some(p) }
}

/// The roles of the pieces of an entity tag: article, owner, key and pronoun type. Four
/// pieces are article, owner, key and type (the first must be an article); with three, a
/// leading article (or an empty first piece) is followed by key and type (`{the:target:obj}`)
/// or by a piece that names an owner (see `owner_split`) and the key, and otherwise the pieces
/// are owner, key and type; with two, an article and a key, a key
/// and a type, or an owner and a key; one piece is the key.
pub open spec fn destructured(parts: Seq<Seq<char>>, content: Seq<char>) -> Result<(Option<Seq<char>>, Option<Seq<char>>, Seq<char>, Option<Seq<char>>), Seq<char>> {
    let malformed = entity_error("Malformed entity tag"@, content);
    if parts.len() == 4 {
        let c1 = stance_prefixes(parts[0], no_flags()).0;
        if c1.len() == 0 || !is_article_word(c1) {
            Err(malformed)
        } else {
            Ok((Some(parts[0]), Some(parts[1]), parts[2], Some(parts[3])))
        }
    } else if parts.len() == 3 {
        let c1 = stance_prefixes(parts[0], no_flags()).0;
        if c1.len() == 0 || is_article_word(c1) {
            if is_pronoun_type(parts[2]) || parts[2].len() == 0 {
                Ok((non_empty(parts[0]), None, parts[1], Some(parts[2])))
            } else if owner_split(parts[1]).0.len() > 0 {
                Ok((non_empty(parts[0]), Some(parts[1]), parts[2], None))
            } else {
                Err(malformed)
            }
        } else if is_pronoun_type(parts[2]) || parts[2].len() == 0 {
            Ok((None, Some(parts[0]), parts[1], Some(parts[2])))
        } else {
            Err(malformed)
        }
    } else if parts.len() == 2 {
        let c1 = stance_prefixes(parts[0], no_flags()).0;
        if c1.len() > 0 && is_article_word(c1) {
            Ok((non_empty(parts[0]), None, parts[1], None))
        } else if is_pronoun_type(parts[1]) || parts[1].len() == 0 {
            Ok((None, None, parts[0], Some(parts[1])))
        } else if c1.len() == 0 {
            Ok((non_empty(parts[0]), None, parts[1], None))
        } else {
            Ok((None, Some(parts[0]), parts[1], None))
        }
    } else if parts.len() == 1 {
        Ok((None, None, parts[0], None))
    } else {
        Err(malformed)
    }
}

/// Whether a piece names an owner (see `owner_split`).
fn names_owner(op: &str) -> (r: bool)
    ensures
        r == (owner_split(op@).0.len() > 0),
{
    let ov = chars_of(op);
    match find_spaced_marker(&ov) {
        Some((i, _)) => {
            assert(ov@.take(i as int).len() == i);
            i > 0
        },
        None => {
            let (stripped, had) = parse_possessive_suffix(op);
            had && stripped.unicode_len() > 0
        },
    }
}

fn non_empty_exec(p: &String) -> (r: Option<String>)
    ensures
        opt_view(r) == non_empty(p@),
{
    if p.unicode_len() == 0 { None } else { Some(p.clone()) }
}

/// Assigns the pieces of an entity tag their roles (see `destructured`).
pub fn destructure_entity_tag(parts: &Vec<String>, content: &str) -> (r: Result<(Option<String>, Option<String>, String, Option<String>), String>)
    ensures
        match r {
            Ok((a, o, k, p)) => destructured(string_views(parts@), content@) matches Ok(t) && t == (opt_view(a), opt_view(o), k@, opt_view(p)),
            Err(e) => destructured(string_views(parts@), content@) matches Err(m) && m == e@,
        },
{
    let ghost pv = string_views(parts@);
    let n = parts.len();
    if n == 0 || n > 4 {
        return Err(validation_error("Malformed entity tag", content, TAG_ENTITY_OPEN));
    }
    assert(pv[0] == parts@[0]@);
    let (c1, _) = parse_stance_prefixes(parts[0].as_str());
    let c1_empty = c1.unicode_len() == 0;
    if n == 4 {
        assert(pv[1] == parts@[1]@ && pv[2] == parts@[2]@ && pv[3] == parts@[3]@);
        if c1_empty || !is_article(c1.as_str()) {
            return Err(validation_error("Malformed entity tag", content, TAG_ENTITY_OPEN));
        }
        return Ok((Some(parts[0].clone()), Some(parts[1].clone()), parts[2].clone(), Some(parts[3].clone())));
    }
    if n == 3 {
        assert(pv[1] == parts@[1]@ && pv[2] == parts@[2]@);
        let p3_type = is_p_type(parts[2].as_str()) || parts[2].unicode_len() == 0;
        if c1_empty || is_article(c1.as_str()) {
            let article = non_empty_exec(&parts[0]);
            if p3_type {
                return Ok((article, None, parts[1].clone(), Some(parts[2].clone())));
            } else if names_owner(parts[1].as_str()) {
                return Ok((article, Some(parts[1].clone()), parts[2].clone(), None));
            } else {
                return Err(validation_error("Malformed entity tag", content, TAG_ENTITY_OPEN));
            }
        } else if p3_type {
            return Ok((None, Some(parts[0].clone()), parts[1].clone(), Some(parts[2].clone())));
        } else {
            return Err(validation_error("Malformed entity tag", content, TAG_ENTITY_OPEN));
        }
    }
    if n == 2 {
        assert(pv[1] == parts@[1]@);
        if !c1_empty && is_article(c1.as_str()) {
            return Ok((non_empty_exec(&parts[0]), None, parts[1].clone(), None));
        } else if is_p_type(parts[1].as_str()) || parts[1].unicode_len() == 0 {
            return Ok((None, None, parts[0].clone(), Some(parts[1].clone())));
        } else if c1_empty {
            return Ok((non_empty_exec(&parts[0]), None, parts[1].clone(), None));
        } else {
            return Ok((None, Some(parts[0].clone()), parts[1].clone(), None));
        }
    }
    Ok((None, None, parts[0].clone(), None))
}


/// The article piece after its modifiers, and the flags: its modifiers are added (a forced
/// third person also forces the article), and whether it is indefinite and capitalised is
/// recorded.
#[verifier::opaque]
pub open spec fn article_step(raw: Option<Seq<char>>, flags: TagFlags) -> (Option<Seq<char>>, TagFlags) {
    match raw {
        None => (None, flags),
        Some(art) => {
            let (clean, af0) = stance_prefixes(art, no_flags());
            let af = if af0.force_3rd_person { TagFlags { force_article: true, ..af0 } } else { af0 };
            let f = flags_union(flags, af);
            (Some(clean), TagFlags {
                article_indefinite: eq_ignore_ascii_case(clean, "a"@) || eq_ignore_ascii_case(clean, "an"@),
                article_capitalized: capitalized_text(clean),
                ..f
            })
        },
    }
}

/// Reads the article piece of an entity tag (see `article_step`).
pub fn process_article_part(raw_article: Option<&str>, flags: &mut TagFlags) -> (r: Option<String>)
    ensures
        (opt_view(r), *final(flags)) == article_step(opt_str_view(raw_article), *old(flags)),
{
    proof {
        reveal(article_step);
    }
    match raw_article {
        None => None,
        Some(art) => {
            let (clean, mut af) = parse_stance_prefixes(art);
            if af.force_3rd_person {
                af.force_article = true;
            }
            let f = merge_flags(*flags, af);
            *flags = TagFlags {
                article_indefinite: is_indefinite_article(clean.as_str()),
                article_capitalized: is_capitalized(clean.as_str()),
                ..f
            };
            Some(clean)
        },
    }
}

/// The owner and adjectives that a possessive piece names: split at a spaced possessive
/// marker, or a piece that ends with a possessive suffix is all owner, and otherwise all
/// adjectives.
pub open spec fn owner_split(op: Seq<char>) -> (Seq<char>, Seq<char>) {
    match first_spaced_marker(op, spaced_possessives()) {
        Some((i, n)) => (op.take(i), op.skip(i + n)),
        None => if possessive_stripped(op).1 { (possessive_stripped(op).0, seq![]) } else { (seq![], op) },
    }
}

/// An owner written in a tag: its key in lower case after its modifiers, and its flags
/// (with whether it is capitalised).
pub open spec fn owner_of(owner: Seq<char>) -> (Seq<char>, TagFlags) {
    let (c, f) = stance_prefixes(owner, no_flags());
    let c2 = trim(c);
    (unicode_lowercase(c2), TagFlags { is_capitalized: capitalized_text(c2), ..f })
}

/// The owner, the owner's flags, the adjectives and the key of an entity tag. An owner piece
/// is split by `owner_split`; without one, a key holding a spaced possessive ("source's
/// glowing orb") names its owner before the marker, and after it the adjectives up to the
/// last space and then the key.
#[verifier::opaque]
pub open spec fn owner_step(raw_owner: Option<Seq<char>>, raw_key: Seq<char>) -> (Option<Seq<char>>, TagFlags, Option<Seq<char>>, Seq<char>) {
    match raw_owner {
        Some(op) => {
            let (owner_str, adj_str) = owner_split(op);
            let adj = trim(adj_str);
            (
                if owner_str.len() > 0 { Some(owner_of(owner_str).0) } else { None },
                if owner_str.len() > 0 { owner_of(owner_str).1 } else { no_flags() },
                non_empty(adj),
                raw_key,
            )
        },
        None => match first_spaced_marker(raw_key, spaced_possessives()) {
            Some((i, n)) => {
                let (ok, of) = owner_of(raw_key.take(i));
                let rem = raw_key.skip(i + n);
                match last_char_index(rem, ' ') {
                    Some(sp) => (Some(ok), of, Some(trim(rem.take(sp))), rem.skip(sp + 1)),
                    None => (Some(ok), of, None, rem),
                }
            },
            None => (None, no_flags(), None, raw_key),
        },
    }
}

/// Reads an owner (see `owner_of`).
fn owner_exec(owner: &Vec<char>) -> (r: (String, TagFlags))
    ensures
        (r.0@, r.1) == owner_of(owner@),
{
    let (c, f) = parse_stance_prefixes(string_of(owner).as_str());
    let c2 = string_of(&chars_trim(&chars_of(c.as_str())));
    let capital = is_capitalized(c2.as_str());
    (str_to_lowercase(c2.as_str()), TagFlags { is_capitalized: capital, ..f })
}

/// Reads the owner, owner flags, adjectives and key of an entity tag (see `owner_step`).
pub fn process_owner_part(raw_owner: Option<&str>, raw_key: &str) -> (r: (Option<String>, TagFlags, Option<String>, String))
    ensures
        (opt_view(r.0), r.1, opt_view(r.2), r.3@) == owner_step(opt_str_view(raw_owner), raw_key@),
{
    proof {
        reveal(owner_step);
    }
    match raw_owner {
        Some(op) => {
            let ov = chars_of(op);
            let (owner_str, adj_str) = match find_spaced_marker(&ov) {
                Some((i, n)) => {
                    let a = subrange_of(&ov, 0, i);
                    let b = subrange_of(&ov, i + n, ov.len());
                    assert(a@ =~= ov@.take(i as int));
                    assert(b@ =~= ov@.skip(i + n));
                    (a, b)
                },
                None => {
                    let (stripped, had) = parse_possessive_suffix(op);
                    if had {
                        (chars_of(stripped.as_str()), Vec::new())
                    } else {
                        (Vec::new(), ov)
                    }
                },
            };
            assert((owner_str@, adj_str@) == owner_split(op@));
            let adj = chars_trim(&adj_str);
            let (owner_key, owner_flags) = if owner_str.len() > 0 {
                let (k, f) = owner_exec(&owner_str);
                (Some(k), f)
            } else {
                (None, TagFlags::empty())
            };
            let adjectives = if adj.len() > 0 { Some(string_of(&adj)) } else { None };
            (owner_key, owner_flags, adjectives, String::from_str(raw_key))
        },
        None => {
            let kv = chars_of(raw_key);
            match find_spaced_marker(&kv) {
                Some((i, n)) => {
                    let owner = subrange_of(&kv, 0, i);
                    assert(owner@ =~= kv@.take(i as int));
                    let (ok, of) = owner_exec(&owner);
                    let rem = subrange_of(&kv, i + n, kv.len());
                    assert(rem@ =~= kv@.skip(i + n));
                    match rfind_char(&rem, ' ') {
                        Some(sp) => {
                            let adj = chars_trim(&subrange_of(&rem, 0, sp));
                            assert(rem@.subrange(0, sp as int) =~= rem@.take(sp as int));
                            let key = subrange_of(&rem, sp + 1, rem.len());
                            assert(key@ =~= rem@.skip(sp + 1));
                            (Some(ok), of, Some(string_of(&adj)), string_of(&key))
                        },
                        None => (Some(ok), of, None, string_of(&rem)),
                    }
                },
                None => (None, TagFlags::empty(), None, String::from_str(raw_key)),
            }
        },
    }
}

/// The key of an entity tag after its modifiers and possessive suffix, and the flags: the
/// key's modifiers are added, and whether it is possessive and capitalised is recorded. An
/// empty key is rejected (with a message that names the article or pronoun type beside it),
/// and so is a key with an empty property segment.
#[verifier::opaque]
pub open spec fn key_step(raw_key: Seq<char>, has_article: bool, has_p_type: bool, content: Seq<char>, flags: TagFlags) -> Result<(Seq<char>, TagFlags), Seq<char>> {
    let (ck, kf) = stance_prefixes(raw_key, no_flags());
    let (k, poss) = possessive_stripped(ck);
    if has_article && k.len() == 0 {
        Err(entity_error("Entity tag has an article but an empty key"@, content))
    } else if has_p_type && k.len() == 0 {
        Err(entity_error("Pronoun tag has an empty key or type"@, content))
    } else if k.len() == 0 {
        Err(entity_error("Entity tag has an empty key"@, content))
    } else if has_empty_segment(k) {
        Err(entity_error("Entity tag has an empty property segment"@, content))
    } else {
        Ok((k, TagFlags { is_possessive: poss, is_capitalized: capitalized_text(k), ..flags_union(flags, kf) }))
    }
}

/// Reads the key of an entity tag (see `key_step`); the flags are left as they were when the
/// key is rejected.
pub fn process_key_part(raw_key: &str, has_article: bool, has_p_type: bool, content: &str, flags: &mut TagFlags) -> (r: Result<String, String>)
    ensures
        match r {
            Ok(k) => key_step(raw_key@, has_article, has_p_type, content@, *old(flags)) matches Ok(t) && t == (k@, *final(flags)),
            Err(e) => key_step(raw_key@, has_article, has_p_type, content@, *old(flags)) matches Err(m) && m == e@ && *final(flags) == *old(flags),
        },
{
    proof {
        reveal(key_step);
    }
    let (ck, kf) = parse_stance_prefixes(raw_key);
    let (k, poss) = parse_possessive_suffix(ck.as_str());
    let empty = k.unicode_len() == 0;
    if has_article && empty {
        return Err(validation_error("Entity tag has an article but an empty key", content, TAG_ENTITY_OPEN));
    }
    if has_p_type && empty {
        return Err(validation_error("Pronoun tag has an empty key or type", content, TAG_ENTITY_OPEN));
    }
    reject_if(empty, "Entity tag has an empty key", content, TAG_ENTITY_OPEN)?;
    validate_property_segments(k.as_str(), "Entity tag has an empty property segment", content, TAG_ENTITY_OPEN)?;
    let f = merge_flags(*flags, kf);
    *flags = TagFlags { is_possessive: poss, is_capitalized: is_capitalized(k.as_str()), ..f };
    Ok(k)
}

/// The pronoun type of an entity tag after its modifiers, and the flags: its modifiers are
/// added and whether it is capitalised is recorded. An empty type is rejected.
#[verifier::opaque]
pub open spec fn p_type_step(raw: Option<Seq<char>>, content: Seq<char>, flags: TagFlags) -> Result<(Option<Seq<char>>, TagFlags), Seq<char>> {
    match raw {
        None => Ok((None, flags)),
        Some(pt) => {
            let (c, pf) = stance_prefixes(pt, no_flags());
            if c.len() == 0 {
                Err(entity_error("Pronoun tag has an empty key or type"@, content))
            } else {
                Ok((Some(c), TagFlags { pronoun_capitalized: capitalized_text(c), ..flags_union(flags, pf) }))
            }
        },
    }
}

/// Reads the pronoun type of an entity tag (see `p_type_step`); the flags are left as they
/// were when the type is rejected.
pub fn process_p_type_part(raw_p_type: Option<&str>, content: &str, flags: &mut TagFlags) -> (r: Result<Option<String>, String>)
    ensures
        match r {
            Ok(p) => p_type_step(opt_str_view(raw_p_type), content@, *old(flags)) matches Ok(t) && t == (opt_view(p), *final(flags)),
            Err(e) => p_type_step(opt_str_view(raw_p_type), content@, *old(flags)) matches Err(m) && m == e@ && *final(flags) == *old(flags),
        },
{
    proof {
        reveal(p_type_step);
    }
    match raw_p_type {
        None => Ok(None),
        Some(pt) => {
            let (c, pf) = parse_stance_prefixes(pt);
            reject_if(c.unicode_len() == 0, "Pronoun tag has an empty key or type", content, TAG_ENTITY_OPEN)?;
            let f = merge_flags(*flags, pf);
            *flags = TagFlags { pronoun_capitalized: is_capitalized(c.as_str()), ..f };
            Ok(Some(c))
        },
    }
}

/// The entity token made of cleaned pieces: key and pronoun type lower-cased, every piece
/// read as a segment.
#[verifier::opaque]
pub open spec fn entity_model(key: Seq<char>, article: Option<Seq<char>>, p_type: Option<Seq<char>>, owner_key: Option<Seq<char>>, owner_flags: TagFlags, adjectives: Option<Seq<char>>, flags: TagFlags) -> TokenModel {
    TokenModel::Entity {
        key: parsed_segment(unicode_lowercase(key)),
        article: match article { Some(a) => Some(parsed_segment(a)), None => None },
        p_type: match p_type { Some(p) => Some(parsed_segment(unicode_lowercase(p))), None => None },
        owner_key: match owner_key { Some(o) => Some(parsed_segment(o)), None => None },
        owner_flags,
        adjectives: match adjectives { Some(a) => Some(parsed_segment(a)), None => None },
        flags,
    }
}

/// The token an entity tag stands for, given the roles of its pieces: the pieces are read in
/// turn (`article_step`, `owner_step`, `key_step`, `p_type_step`); key and pronoun type are
/// lower-cased, every piece is read as a segment, and the flags record `all_caps`.
pub open spec fn entity_from_roles(ra: Option<Seq<char>>, ro: Option<Seq<char>>, rk: Seq<char>, rp: Option<Seq<char>>, content: Seq<char>, all_caps: bool) -> Result<TokenModel, Seq<char>> {
    let (art, f1) = article_step(ra, no_flags());
    let (ok, of, adj, wk) = owner_step(ro, rk);
    match key_step(wk, ra is Some, rp is Some, content, f1) {
        Err(e) => Err(e),
        Ok((k, f2)) => match p_type_step(rp, content, f2) {
            Err(e) => Err(e),
            Ok((pt, f3)) => Ok(entity_model(k, art, pt, ok, of, adj, TagFlags { all_caps, ..f3 })),
        },
    }
}

/// The token an entity tag stands for, or the message that rejects it: one to four pieces
/// are assigned their roles (`destructured`) and read (`entity_from_roles`), the flags
/// recording whether the tag was written in capitals.
pub open spec fn entity_tag(content: Seq<char>) -> Result<TokenModel, Seq<char>> {
    let parts = entity_parts(content);
    if parts.len() == 0 || parts.len() > 4 {
        Err(entity_error("Malformed entity tag"@, content))
    } else {
        match destructured(parts, content) {
            Err(e) => Err(e),
            Ok((ra, ro, rk, rp)) => entity_from_roles(ra, ro, rk, rp, content, all_caps_text(content)),
        }
    }
}

fn opt_as_str(o: &Option<String>) -> (r: Option<&str>)
    ensures
        opt_str_view(r) == opt_view(*o),
{
    match o {
        Some(s) => Some(s.as_str()),
        None => None,
    }
}

fn opt_parse(o: &Option<String>) -> (r: Option<TagSegment>)
    ensures
        opt_segment(r) == (match opt_view(*o) { Some(s) => Some(parsed_segment(s)), None => None }),
{
    match o {
        Some(s) => Some(TagSegment::parse(s.as_str())),
        None => None,
    }
}

/// The token built from the pieces read in turn is the one that `entity_from_roles` names.
proof fn lemma_entity_result(
    t: TagToken,
    ra: Option<Seq<char>>,
    ro: Option<Seq<char>>,
    rk: Seq<char>,
    rp: Option<Seq<char>>,
    content: Seq<char>,
    all_caps: bool,
    key: Seq<char>,
    art: Option<Seq<char>>,
    pt: Option<Seq<char>>,
    f2: TagFlags,
    f3: TagFlags,
    flags: TagFlags,
)
    requires
        article_step(ra, no_flags()).0 == art,
        key_step(owner_step(ro, rk).3, ra is Some, rp is Some, content, article_step(ra, no_flags()).1) == Ok::<(Seq<char>, TagFlags), Seq<char>>((key, f2)),
        p_type_step(rp, content, f2) == Ok::<(Option<Seq<char>>, TagFlags), Seq<char>>((pt, f3)),
        flags == (TagFlags { all_caps, ..f3 }),
        token_model(t) == entity_model(key, art, pt, owner_step(ro, rk).0, owner_step(ro, rk).1, owner_step(ro, rk).2, flags),
    ensures
        entity_from_roles(ra, ro, rk, rp, content, all_caps) == Ok::<TokenModel, Seq<char>>(token_model(t)),
{
}

/// Reads the pieces of an entity tag once their roles are known (see `entity_from_roles`).
fn entity_from_roles_exec(raw_article: &Option<String>, raw_owner: &Option<String>, raw_key: &String, raw_p_type: &Option<String>, content: &str, all_caps: bool) -> (r: Result<TagToken, String>)
    ensures
        match r {
            Ok(t) => entity_from_roles(opt_view(*raw_article), opt_view(*raw_owner), raw_key@, opt_view(*raw_p_type), content@, all_caps) == Ok::<TokenModel, Seq<char>>(token_model(t)),
            Err(e) => entity_from_roles(opt_view(*raw_article), opt_view(*raw_owner), raw_key@, opt_view(*raw_p_type), content@, all_caps) == Err::<TokenModel, Seq<char>>(e@),
        },
{
    let mut flags = TagFlags::empty();
    let clean_article = process_article_part(opt_as_str(raw_article), &mut flags);
    let (owner_key, owner_flags, adjectives, working_key) = process_owner_part(opt_as_str(raw_owner), raw_key.as_str());
    let clean_key = match process_key_part(working_key.as_str(), raw_article.is_some(), raw_p_type.is_some(), content, &mut flags) {
        Ok(k) => k,
        Err(e) => {
            return Err(e);
        },
    };
    let clean_p_type = match process_p_type_part(opt_as_str(raw_p_type), content, &mut flags) {
        Ok(p) => p,
        Err(e) => {
            return Err(e);
        },
    };
    flags.all_caps = all_caps;
    let t = entity_token(&clean_key, &clean_article, &clean_p_type, &owner_key, owner_flags, &adjectives, flags);
    proof {
        let ra = opt_view(*raw_article);
        let rp = opt_view(*raw_p_type);
        let f1 = article_step(ra, no_flags()).1;
        let wk = owner_step(opt_view(*raw_owner), raw_key@).3;
        let f2 = key_step(wk, ra is Some, rp is Some, content@, f1)->Ok_0.1;
        let f3 = p_type_step(rp, content@, f2)->Ok_0.1;
        lemma_entity_result(t, ra, opt_view(*raw_owner), raw_key@, rp, content@, all_caps, clean_key@, opt_view(clean_article), opt_view(clean_p_type), f2, f3, flags);
    }
    Ok(t)
}

/// The entity token built from its cleaned pieces: key and pronoun type lower-cased, every
/// piece read as a segment.
fn entity_token(key: &String, article: &Option<String>, p_type: &Option<String>, owner_key: &Option<String>, owner_flags: TagFlags, adjectives: &Option<String>, flags: TagFlags) -> (r: TagToken)
    ensures
        token_model(r) == entity_model(key@, opt_view(*article), opt_view(*p_type), opt_view(*owner_key), owner_flags, opt_view(*adjectives), flags),
{
    proof {
        reveal(entity_model);
    }
    let pt = match p_type {
        Some(p) => Some(TagSegment::parse(str_to_lowercase(p.as_str()).as_str())),
        None => None,
    };
    TagToken::EntityRef {
        key: TagSegment::parse(str_to_lowercase(key.as_str()).as_str()),
        article: opt_parse(article),
        p_type: pt,
        owner_key: opt_parse(owner_key),
        owner_flags,
        adjectives: opt_parse(adjectives),
        flags,
    }
}

/// Reads an entity tag (see `entity_tag`).
pub fn parse_entity(content: &str) -> (r: Result<TagToken, String>)
    ensures
        match r {
            Ok(t) => entity_tag(content@) == Ok::<TokenModel, Seq<char>>(token_model(t)),
            Err(e) => entity_tag(content@) == Err::<TokenModel, Seq<char>>(e@),
        },
{
    let all_caps = is_all_caps(content);
    let parts = trimmed_parts(content);
    if parts.len() == 0 || parts.len() > 4 {
        return Err(validation_error("Malformed entity tag", content, TAG_ENTITY_OPEN));
    }
    match destructure_entity_tag(&parts, content) {
        Ok((raw_article, raw_owner, raw_key, raw_p_type)) => entity_from_roles_exec(&raw_article, &raw_owner, &raw_key, &raw_p_type, content, all_caps),
        Err(e) => Err(e),
    }
}

// ---------------------------------------------------------------------------
// Fallbacks
// ---------------------------------------------------------------------------

/// The fallback written after `??`: trimmed, without quotes at its ends, escapes resolved.
pub open spec fn fallback_text(s: Seq<char>) -> Seq<char> {
    unescaped(quotes_trimmed(trim(s)))
}

/// Splits a text at its first `??`: the key before it (trimmed) and the fallback after it.
fn fallback_split(s: &Vec<char>) -> (r: Option<(Vec<char>, String)>)
    ensures
        match r {
            Some((k, f)) => find(s@, "??"@) matches Some(i) && k@ == trim(s@.take(i)) && f@ == fallback_text(s@.skip(i + "??"@.len())),
            None => find(s@, "??"@) is None,
        },
{
    let pat = chars_of("??");
    match chars_find_from(s, &pat, 0) {
        Some(i) => {
            proof {
                lemma_find_bounds(s@, pat@, 0);
            }
            let k = chars_trim(&subrange_of(s, 0, i));
            assert(s@.subrange(0, i as int) =~= s@.take(i as int));
            let f = subrange_of(s, i + pat.len(), s.len());
            assert(f@ =~= s@.skip(i + pat@.len()));
            let fb = trim_quotes(&chars_trim(&f));
            Some((k, unescape_string(string_of(&fb).as_str())))
        },
        None => None,
    }
}

// ---------------------------------------------------------------------------
// Verb tags
// ---------------------------------------------------------------------------

/// The message that rejects a verb tag.
pub open spec fn verb_error(message: Seq<char>, content: Seq<char>) -> Seq<char> {
    validation_message(message, content, TAG_VERB_OPEN)
}

/// The subject and the verb piece of a verb tag: with two pieces, the first is the subject
/// (lower-cased; an empty subject or property segment is rejected); one piece is the verb,
/// unless it is the sentence-break control word `SB` or `NO_SB`.
#[verifier::opaque]
pub open spec fn verb_subject(p1: Seq<char>, p2: Option<Seq<char>>, content: Seq<char>) -> Result<Result<(Option<Seq<char>>, Seq<char>), TokenModel>, Seq<char>> {
    match p2 {
        Some(q) => if p1.len() == 0 {
            Err(verb_error("Verb tag has an empty subject key"@, content))
        } else if has_empty_segment(p1) {
            Err(verb_error("Verb tag has an empty property segment"@, content))
        } else {
            Ok(Ok((Some(unicode_lowercase(p1)), q)))
        },
        None => if p1 == "SB"@ {
            Ok(Err(TokenModel::SentenceBreak))
        } else if p1 == "NO_SB"@ {
            Ok(Err(TokenModel::NoSentenceBreak))
        } else {
            Ok(Ok((None, p1)))
        },
    }
}

/// Reads the subject of a verb tag (see `verb_subject`).
pub fn process_verb_subject(p1_str: &str, p2_opt: Option<&str>, content: &str) -> (r: Result<Result<(Option<String>, String), TagToken>, String>)
    ensures
        match r {
            Ok(Ok((s, v))) => verb_subject(p1_str@, opt_str_view(p2_opt), content@) matches Ok(Ok(x)) && x == (opt_view(s), v@),
            Ok(Err(t)) => verb_subject(p1_str@, opt_str_view(p2_opt), content@) matches Ok(Err(m)) && m == token_model(t),
            Err(e) => verb_subject(p1_str@, opt_str_view(p2_opt), content@) matches Err(m) && m == e@,
        },
{
    proof {
        reveal(verb_subject);
    }
    match p2_opt {
        Some(p2) => {
            reject_if(p1_str.unicode_len() == 0, "Verb tag has an empty subject key", content, TAG_VERB_OPEN)?;
            validate_property_segments(p1_str, "Verb tag has an empty property segment", content, TAG_VERB_OPEN)?;
            Ok(Ok((Some(str_to_lowercase(p1_str)), String::from_str(p2))))
        },
        None => {
            if str_eq(p1_str, "SB") {
                return Ok(Err(TagToken::SentenceBreak));
            }
            if str_eq(p1_str, "NO_SB") {
                return Ok(Err(TagToken::NoSentenceBreak));
            }
            Ok(Ok((None, String::from_str(p1_str))))
        },
    }
}

/// The pieces of a verb: a variable key and its fallback, when the verb starts with `$`.
pub open spec fn dynamic_verb(base: Seq<char>) -> (Option<Seq<char>>, Option<Seq<char>>) {
    if base.len() > 0 && base[0] == '$' {
        let var = base.drop_first();
        match find(var, "??"@) {
            Some(i) => (Some(trim(var.take(i))), Some(fallback_text(var.skip(i + "??"@.len())))),
            None => (Some(trim(var)), None),
        }
    } else {
        (None, None)
    }
}

/// The pieces of a verb: dynamic key, its fallback, base verb, forced present and past
/// forms. The verb is split at its first form separator into the base verb and the forced
/// forms, both trimmed; neither may then be empty, and the forced forms are read by
/// `forced_conjugations`.
#[verifier::opaque]
pub open spec fn verb_conjugations(vp: Seq<char>, content: Seq<char>) -> Result<(Option<Seq<char>>, Option<Seq<char>>, Seq<char>, Option<Seq<Seq<char>>>, Option<Seq<Seq<char>>>), Seq<char>> {
    let (base, forced) = match find(vp, seq![VERB_FORM_SEP]) {
        Some(i) => (trim(vp.take(i)), Some(trim(vp.skip(i + 1)))),
        None => (trim(vp), None),
    };
    let (dk, df) = dynamic_verb(base);
    match forced {
        Some(fs) => if base.len() == 0 || fs.len() == 0 {
            Err(verb_error("Verb tag has an empty verb or forced conjugation segment"@, content))
        } else {
            match forced_conjugations(fs, content) {
                Err(e) => Err(e),
                Ok((fp, fpa)) => Ok((dk, df, base, fp, fpa)),
            }
        },
        None => Ok((dk, df, base, None, None)),
    }
}

/// The pieces of a verb tag's verb.
pub struct ParsedVerb {
    /// A variable whose value is the verb, if any.
    pub dynamic_key: Option<String>,
    /// The text used when that variable is missing, if any.
    pub dynamic_fallback: Option<String>,
    /// The base verb.
    pub base_verb: String,
    /// Forced present forms, if any.
    pub forced_present: Option<Vec<String>>,
    /// Forced past forms, if any.
    pub forced_past: Option<Vec<String>>,
}

/// The model of the pieces of a verb.
pub open spec fn parsed_verb_model(p: ParsedVerb) -> (Option<Seq<char>>, Option<Seq<char>>, Seq<char>, Option<Seq<Seq<char>>>, Option<Seq<Seq<char>>>) {
    (opt_view(p.dynamic_key), opt_view(p.dynamic_fallback), p.base_verb@, opt_strings(p.forced_present), opt_strings(p.forced_past))
}

/// Reads the verb of a verb tag (see `verb_conjugations`).
pub fn process_verb_conjugations(verb_part: &str, content: &str) -> (r: Result<ParsedVerb, String>)
    ensures
        match r {
            Ok(p) => verb_conjugations(verb_part@, content@) matches Ok(x) && x == parsed_verb_model(p),
            Err(e) => verb_conjugations(verb_part@, content@) matches Err(m) && m == e@,
        },
{
    proof {
        reveal(verb_conjugations);
    }
    let vp = chars_of(verb_part);
    let sep = vec![VERB_FORM_SEP];
    assert(sep@ =~= seq![VERB_FORM_SEP]);
    let (base, forced) = match chars_find_from(&vp, &sep, 0) {
        Some(i) => {
            proof {
                lemma_find_bounds(vp@, sep@, 0);
            }
            let b = chars_trim(&subrange_of(&vp, 0, i));
            assert(vp@.subrange(0, i as int) =~= vp@.take(i as int));
            let f = subrange_of(&vp, i + 1, vp.len());
            assert(f@ =~= vp@.skip(i + 1));
            (b, Some(chars_trim(&f)))
        },
        None => (chars_trim(&vp), None),
    };
    let (dynamic_key, dynamic_fallback) = if base.len() > 0 && base[0] == '$' {
        let var = subrange_of(&base, 1, base.len());
        assert(var@ =~= base@.drop_first());
        match fallback_split(&var) {
            Some((k, f)) => (Some(string_of(&k)), Some(f)),
            None => (Some(string_of(&chars_trim(&var))), None),
        }
    } else {
        (None, None)
    };
    assert((opt_view(dynamic_key), opt_view(dynamic_fallback)) == dynamic_verb(base@));
    match forced {
        Some(fs) => {
            reject_if(base.len() == 0 || fs.len() == 0, "Verb tag has an empty verb or forced conjugation segment", content, TAG_VERB_OPEN)?;
            let (forced_present, forced_past) = parse_forced_conjugations(string_of(&fs).as_str(), content)?;
            Ok(ParsedVerb { dynamic_key, dynamic_fallback, base_verb: string_of(&base), forced_present, forced_past })
        },
        None => Ok(ParsedVerb { dynamic_key, dynamic_fallback, base_verb: string_of(&base), forced_present: None, forced_past: None }),
    }
}

/// The verb token made of the pieces of a verb tag: the subject read as a segment of its
/// lower-cased key, the verb and its lower-cased form, the lower-cased dynamic key; the flags
/// are the subject piece's, and record whether the verb (or its dynamic key) is capitalised
/// and whether the tag was written in capitals.
#[verifier::opaque]
pub open spec fn verb_model(subj: Option<Seq<char>>, base: Seq<char>, dk: Option<Seq<char>>, df: Option<Seq<char>>, fp: Option<Seq<Seq<char>>>, fpa: Option<Seq<Seq<char>>>, f: TagFlags, caps: bool) -> TokenModel {
    let cap = (match dk { Some(k) => capitalized_text(k), None => false }) || capitalized_text(base);
    TokenModel::Verb {
        subject_key: match subj { Some(s) => Some(parsed_segment(unicode_lowercase(s))), None => None },
        original_verb: base,
        lower_verb: unicode_lowercase(base),
        dynamic_key: match dk { Some(k) => Some(unicode_lowercase(k)), None => None },
        dynamic_fallback: df,
        forced_present: fp,
        forced_past: fpa,
        flags: TagFlags { is_capitalized: cap, all_caps: caps, ..f },
    }
}

/// The token a verb tag stands for, or the message that rejects it: the tag is split into
/// at most two pieces (`tag_parts`), the first piece's modifiers read, then the subject
/// (`verb_subject`) and the verb (`verb_conjugations`), and the token built by `verb_model`.
pub open spec fn verb_tag(content: Seq<char>) -> Result<TokenModel, Seq<char>> {
    match tag_parts(content, TAG_VERB_OPEN, "Malformed verb tag"@) {
        Err(e) => Err(e),
        Ok((p1, p2)) => {
            let (p1s, p1f) = stance_prefixes(p1, no_flags());
            match verb_subject(p1s, p2, content) {
                Err(e) => Err(e),
                Ok(Err(tok)) => Ok(tok),
                Ok(Ok((subj, vp))) => match verb_conjugations(vp, content) {
                    Err(e) => Err(e),
                    Ok((dk, df, base, fp, fpa)) => Ok(verb_model(subj, base, dk, df, fp, fpa, p1f, all_caps_text(content))),
                },
            }
        },
    }
}

/// Builds the verb token (see `verb_model`).
fn verb_token(subject_key: Option<String>, parsed: ParsedVerb, f: TagFlags, all_caps: bool) -> (r: TagToken)
    ensures
        token_model(r) == verb_model(opt_view(subject_key), parsed.base_verb@, opt_view(parsed.dynamic_key), opt_view(parsed.dynamic_fallback), opt_strings(parsed.forced_present), opt_strings(parsed.forced_past), f, all_caps),
{
    proof {
        reveal(verb_model);
    }
    let cap_key = match &parsed.dynamic_key {
        Some(k) => is_capitalized(k.as_str()),
        None => false,
    };
    let cap = cap_key || is_capitalized(parsed.base_verb.as_str());
    let lower = str_to_lowercase(parsed.base_verb.as_str());
    let dk = match &parsed.dynamic_key {
        Some(k) => Some(str_to_lowercase(k.as_str())),
        None => None,
    };
    let subject = match &subject_key {
        Some(s) => Some(TagSegment::parse(str_to_lowercase(s.as_str()).as_str())),
        None => None,
    };
    TagToken::VerbRef {
        subject_key: subject,
        original_verb: parsed.base_verb,
        lower_verb: lower,
        dynamic_key: dk,
        dynamic_fallback: parsed.dynamic_fallback,
        forced_present: parsed.forced_present,
        forced_past: parsed.forced_past,
        flags: TagFlags { is_capitalized: cap, all_caps, ..f },
    }
}

/// The token built from the pieces of a verb tag is the one that `verb_tag` names.
proof fn lemma_verb_result(t: TagToken, content: Seq<char>, p1: Seq<char>, p2: Option<Seq<char>>, p1s: Seq<char>, p1f: TagFlags, subj: Option<Seq<char>>, vp: Seq<char>, parts: (Option<Seq<char>>, Option<Seq<char>>, Seq<char>, Option<Seq<Seq<char>>>, Option<Seq<Seq<char>>>))
    requires
        tag_parts(content, TAG_VERB_OPEN, "Malformed verb tag"@) == Ok::<(Seq<char>, Option<Seq<char>>), Seq<char>>((p1, p2)),
        stance_prefixes(p1, no_flags()) == (p1s, p1f),
        verb_subject(p1s, p2, content) == Ok::<Result<(Option<Seq<char>>, Seq<char>), TokenModel>, Seq<char>>(Ok((subj, vp))),
        verb_conjugations(vp, content) == Ok::<(Option<Seq<char>>, Option<Seq<char>>, Seq<char>, Option<Seq<Seq<char>>>, Option<Seq<Seq<char>>>), Seq<char>>(parts),
        token_model(t) == verb_model(subj, parts.2, parts.0, parts.1, parts.3, parts.4, p1f, all_caps_text(content)),
    ensures
        verb_tag(content) == Ok::<TokenModel, Seq<char>>(token_model(t)),
{
}

/// Reads a verb tag (see `verb_tag`).
pub fn parse_verb(content: &str) -> (r: Result<TagToken, String>)
    ensures
        match r {
            Ok(t) => verb_tag(content@) == Ok::<TokenModel, Seq<char>>(token_model(t)),
            Err(e) => verb_tag(content@) == Err::<TokenModel, Seq<char>>(e@),
        },
{
    let all_caps = is_all_caps(content);
    let (p1, p2) = match split_tag(content, TAG_VERB_OPEN, "Malformed verb tag") {
        Ok(x) => x,
        Err(e) => {
            return Err(e);
        },
    };
    let (p1s, p1f) = parse_stance_prefixes(p1.as_str());
    let (subject_key, verb_part) = match process_verb_subject(p1s.as_str(), opt_as_str(&p2), content) {
        Err(e) => {
            return Err(e);
        },
        Ok(Err(tok)) => {
            return Ok(tok);
        },
        Ok(Ok(parts)) => parts,
    };
    let parsed = match process_verb_conjugations(verb_part.as_str(), content) {
        Ok(p) => p,
        Err(e) => {
            return Err(e);
        },
    };
    let ghost pm = parsed_verb_model(parsed);
    let ghost subj = opt_view(subject_key);
    let t = verb_token(subject_key, parsed, p1f, all_caps);
    proof {
        lemma_verb_result(t, content@, p1@, opt_view(p2), p1s@, p1f, subj, verb_part@, pm);
    }
    Ok(t)
}

// ---------------------------------------------------------------------------
// Variable tags
// ---------------------------------------------------------------------------

/// The body of a variable tag: after a leading `$` (white space before it allowed), trimmed.
pub open spec fn variable_body(content: Seq<char>) -> Seq<char> {
    let ts = trim_start(content);
    trim(if ts.len() > 0 && ts[0] == '$' { ts.drop_first() } else { content })
}

/// The token a variable tag stands for, or the message that rejects it: the body is split
/// at `??` into the key (trimmed) and the fallback; an empty key is rejected; the key is
/// lower-cased and the flags record whether it was capitalised and whether the tag was
/// written in capitals.
pub open spec fn variable_tag(content: Seq<char>) -> Result<TokenModel, Seq<char>> {
    let clean = variable_body(content);
    let (key, fb) = match find(clean, "??"@) {
        Some(i) => (trim(clean.take(i)), Some(fallback_text(clean.skip(i + "??"@.len())))),
        None => (clean, None),
    };
    if key.len() == 0 {
        Err(entity_error("Variable tag has an empty key"@, content))
    } else {
        Ok(TokenModel::Variable {
            key: unicode_lowercase(key),
            fallback: fb,
            flags: TagFlags { is_capitalized: capitalized_text(key), all_caps: all_caps_text(content), ..no_flags() },
        })
    }
}

/// Reads a variable tag (see `variable_tag`).
pub fn parse_variable(content: &str) -> (r: Result<TagToken, String>)
    ensures
        match r {
            Ok(t) => variable_tag(content@) == Ok::<TokenModel, Seq<char>>(token_model(t)),
            Err(e) => variable_tag(content@) == Err::<TokenModel, Seq<char>>(e@),
        },
{
    let all_caps = is_all_caps(content);
    let cv = chars_of(content);
    let ts = chars_trim_start(&cv);
    let body = if ts.len() > 0 && ts[0] == '$' {
        let rest = subrange_of(&ts, 1, ts.len());
        assert(rest@ =~= ts@.drop_first());
        rest
    } else {
        cv
    };
    let clean = chars_trim(&body);
    assert(clean@ == variable_body(content@));
    let (key, fallback) = match fallback_split(&clean) {
        Some((k, f)) => (k, Some(f)),
        None => (clean, None),
    };
    reject_if(key.len() == 0, "Variable tag has an empty key", content, TAG_ENTITY_OPEN)?;
    let key_text = string_of(&key);
    let flags = TagFlags { is_capitalized: is_capitalized(key_text.as_str()), all_caps, ..TagFlags::empty() };
    Ok(TagToken::VariableRef { key: str_to_lowercase(key_text.as_str()), fallback, flags })
}

} // verus!
