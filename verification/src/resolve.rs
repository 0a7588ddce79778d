//! Resolving what a player typed ("the second wolf", "his sword", "Aldran's sword's hilt")
//! to the entities of a rendering context.
use vstd::prelude::*;
use crate::text::{
    all_ascii, append_chars, char_lowercase, char_to_lowercase, chars_all_ascii, chars_eq,
    chars_eq_ignore_ascii_case, chars_of, deunicode_str, eq_ignore_ascii_case, str_eq,
    str_to_lowercase, string_of, transliterated, unicode_lowercase, ascii_lower,
    char_ascii_lower, split_words, views, words, starts_with, ends_with, trim_start, trim_end,
    chars_starts_with, chars_ends_with, chars_trim_start, chars_trim_end, subrange_of, decimal,
    usize_to_string, append_str, find_key, find, trim, trim_end_punct, replace_char,
    chars_find_from, chars_replace, chars_trim, chars_trim_end_punct, lemma_find_bounds,
    is_white, split_on,
};
use crate::grammar::{number_to_ordinal_word, ordinal_word};
use crate::grammar::string_views;
use crate::models::{
    adjectives_spec, collective_spec, synonyms_spec, Gender, RecentEntity, RecentModel,
    RenderContext, TemplateEntity, recent_views, lookup, OrdinalState, name_spec, long_name_spec,
    aliases_spec, recent_entry, recent_position, NULL_VIEWER, TargetMatch, path_target, opt_view,
    is_same_entity, resolve_entity_path, clone_opt_string,
};
use crate::context::entity_for;

verus! {

// ---------------------------------------------------------------------------
// Articles
// ---------------------------------------------------------------------------

/// The leading words that target resolution ignores, in the order they are tried.
pub open spec fn article_prefixes() -> Seq<Seq<char>> {
    seq![
        "the "@, "a "@, "an "@, "some "@, "this "@, "that "@, "another "@, "other "@,
        "these "@, "those "@, "one of the "@, "one of "@,
    ]
}

/// Whether `s` begins with `p`, ASCII letters compared without regard to case.
pub open spec fn starts_with_ignore_ascii_case(s: Seq<char>, p: Seq<char>) -> bool {
    s.len() >= p.len() && eq_ignore_ascii_case(s.take(p.len() as int), p)
}

/// The first of the prefixes `ps` that `s` begins with (ASCII case ignored).
pub open spec fn first_article(s: Seq<char>, ps: Seq<Seq<char>>) -> Option<Seq<char>>
    decreases ps.len(),
{
    if ps.len() == 0 {
        None
    } else if starts_with_ignore_ascii_case(s, ps[0]) {
        Some(ps[0])
    } else {
        first_article(s, ps.drop_first())
    }
}

proof fn lemma_first_article(s: Seq<char>, ps: Seq<Seq<char>>)
    ensures
        match first_article(s, ps) {
            Some(p) => starts_with_ignore_ascii_case(s, p),
            None => true,
        },
    decreases ps.len(),
{
    if ps.len() > 0 && !starts_with_ignore_ascii_case(s, ps[0]) {
        lemma_first_article(s, ps.drop_first());
    }
}

/// The text with leading articles removed, one after another ("one of the orcs" -> "orcs").
pub open spec fn stripped(s: Seq<char>) -> Seq<char>
    decreases s.len(),
{
    match first_article(s, article_prefixes()) {
        Some(p) => if 0 < p.len() <= s.len() {
            stripped(s.skip(p.len() as int))
        } else {
            s
        },
        None => s,
    }
}

/// The characters of the article prefixes, in order.
fn article_prefix_chars() -> (r: Vec<Vec<char>>)
    ensures
        r@.len() == article_prefixes().len(),
        forall|i: int| 0 <= i < r@.len() ==> (#[trigger] r@[i])@ == article_prefixes()[i],
        forall|i: int| 0 <= i < r@.len() ==> (#[trigger] r@[i])@.len() > 0,
{
    let r = vec![
        chars_of("the "), chars_of("a "), chars_of("an "), chars_of("some "), chars_of("this "),
        chars_of("that "), chars_of("another "), chars_of("other "), chars_of("these "),
        chars_of("those "), chars_of("one of the "), chars_of("one of "),
    ];
    proof {
        reveal_strlit("the ");
        reveal_strlit("a ");
        reveal_strlit("an ");
        reveal_strlit("some ");
        reveal_strlit("this ");
        reveal_strlit("that ");
        reveal_strlit("another ");
        reveal_strlit("other ");
        reveal_strlit("these ");
        reveal_strlit("those ");
        reveal_strlit("one of the ");
        reveal_strlit("one of ");
    }
    r
}

/// Whether `s[from..]` begins with `p`, ASCII letters compared without regard to case.
fn starts_with_ignore_ascii_case_at(s: &Vec<char>, from: usize, p: &Vec<char>) -> (r: bool)
    requires
        from <= s.len(),
    ensures
        r == starts_with_ignore_ascii_case(s@.skip(from as int), p@),
{
    let ghost rest = s@.skip(from as int);
    if s.len() - from < p.len() {
        return false;
    }
    let mut i: usize = 0;
    while i < p.len()
        invariant
            from <= s.len(),
            p.len() <= s.len() - from,
            rest == s@.skip(from as int),
            i <= p.len(),
            forall|j: int| 0 <= j < i ==> ascii_lower(#[trigger] rest[j]) == ascii_lower(p@[j]),
        decreases p.len() - i,
    {
        if char_ascii_lower(s[from + i]) != char_ascii_lower(p[i]) {
            assert(ascii_lower(rest.take(p.len() as int)[i as int]) != ascii_lower(p@[i as int]));
            return false;
        }
        i = i + 1;
    }
    assert forall|j: int| 0 <= j < p.len() implies ascii_lower(
        #[trigger] rest.take(p.len() as int)[j],
    ) == ascii_lower(p@[j]) by {
        assert(rest.take(p.len() as int)[j] == rest[j]);
    }
    true
}

/// The position of the first article prefix that `s[start..]` begins with.
fn first_article_at(s: &Vec<char>, start: usize, prefixes: &Vec<Vec<char>>) -> (r: Option<usize>)
    requires
        start <= s.len(),
        prefixes@.len() == article_prefixes().len(),
        forall|i: int| 0 <= i < prefixes@.len() ==> (#[trigger] prefixes@[i])@ == article_prefixes()[i],
    ensures
        match r {
            Some(k) => k < prefixes@.len() && first_article(s@.skip(start as int), article_prefixes())
                == Some(prefixes@[k as int]@),
            None => first_article(s@.skip(start as int), article_prefixes()) is None,
        },
{
    let ghost rest = s@.skip(start as int);
    let ghost ps = article_prefixes();
    let mut i: usize = 0;
    assert(ps.skip(0) =~= ps);
    while i < prefixes.len()
        invariant
            start <= s.len(),
            rest == s@.skip(start as int),
            ps == article_prefixes(),
            i <= prefixes@.len(),
            prefixes@.len() == ps.len(),
            forall|k: int| 0 <= k < prefixes@.len() ==> (#[trigger] prefixes@[k])@ == ps[k],
            first_article(rest, ps) == first_article(rest, ps.skip(i as int)),
        decreases prefixes@.len() - i,
    {
        assert(ps.skip(i as int).drop_first() =~= ps.skip(i + 1));
        assert(ps.skip(i as int)[0] == ps[i as int]);
        if starts_with_ignore_ascii_case_at(s, start, &prefixes[i]) {
            return Some(i);
        }
        i = i + 1;
    }
    assert(ps.skip(i as int) =~= Seq::<Seq<char>>::empty());
    None
}

/// Removes leading articles, repeating until none is left ("one of the orcs" -> "orcs").
pub fn strip_articles(s: &Vec<char>) -> (r: Vec<char>)
    ensures
        r@ == stripped(s@),
{
    let prefixes = article_prefix_chars();
    let mut start: usize = 0;
    assert(s@.skip(0) =~= s@);
    loop
        invariant
            start <= s.len(),
            stripped(s@) == stripped(s@.skip(start as int)),
            prefixes@.len() == article_prefixes().len(),
            forall|i: int| 0 <= i < prefixes@.len() ==> (#[trigger] prefixes@[i])@ == article_prefixes()[i],
            forall|i: int| 0 <= i < prefixes@.len() ==> (#[trigger] prefixes@[i])@.len() > 0,
        decreases s.len() - start,
    {
        let ghost rest = s@.skip(start as int);
        match first_article_at(s, start, &prefixes) {
            Some(k) => {
                let n = prefixes[k].len();
                proof {
                    lemma_first_article(rest, article_prefixes());
                }
                assert(prefixes@[k as int]@.len() > 0);
                assert(rest.skip(n as int) =~= s@.skip(start + n));
                start = start + n;
            },
            None => {
                return subrange_of_rest(s, start);
            },
        }
    }
}

/// The characters `s[from..]`.
fn subrange_of_rest(s: &Vec<char>, from: usize) -> (r: Vec<char>)
    requires
        from <= s.len(),
    ensures
        r@ == s@.skip(from as int),
{
    let r = crate::text::subrange_of(s, from, s.len());
    assert(r@ =~= s@.skip(from as int));
    r
}

// ---------------------------------------------------------------------------
// Comparing words
// ---------------------------------------------------------------------------

/// The text with every character replaced by its Unicode lower-case mapping.
pub open spec fn lower_all(s: Seq<char>) -> Seq<char>
    decreases s.len(),
{
    if s.len() == 0 {
        seq![]
    } else {
        lower_all(s.drop_last()) + char_lowercase(s.last())
    }
}

/// Whether a typed word equals a word of the entity's description: ASCII texts ignore ASCII
/// case; otherwise, in strict mode the typed word must equal the lower-cased description
/// word, and else both are transliterated to ASCII and lower-cased before comparing.
pub open spec fn same_word(lower_str: Seq<char>, mixed_str: Seq<char>, strict: bool) -> bool {
    if all_ascii(lower_str) && all_ascii(mixed_str) {
        eq_ignore_ascii_case(lower_str, mixed_str)
    } else if strict {
        lower_str == lower_all(mixed_str)
    } else {
        unicode_lowercase(transliterated(lower_str)) == unicode_lowercase(transliterated(mixed_str))
    }
}

/// Lower-cases every character of a text with the Unicode mapping.
fn lower_all_chars(s: &Vec<char>) -> (r: Vec<char>)
    ensures
        r@ == lower_all(s@),
{
    let mut r: Vec<char> = Vec::new();
    let mut i: usize = 0;
    assert(s@.take(0) =~= Seq::<char>::empty());
    while i < s.len()
        invariant
            i <= s.len(),
            r@ == lower_all(s@.take(i as int)),
        decreases s.len() - i,
    {
        let l = char_to_lowercase(s[i]);
        append_chars(&mut r, &l);
        assert(s@.take(i + 1).drop_last() =~= s@.take(i as int));
        i = i + 1;
    }
    assert(s@.take(s.len() as int) =~= s@);
    r
}

/// Compares a typed word with a word of the entity's description (see `same_word`).
pub fn eq_ignore_case(lower_str: &Vec<char>, mixed_str: &Vec<char>, strict: bool) -> (r: bool)
    ensures
        r == same_word(lower_str@, mixed_str@, strict),
{
    if chars_all_ascii(lower_str) && chars_all_ascii(mixed_str) {
        chars_eq_ignore_ascii_case(lower_str, mixed_str)
    } else if strict {
        let lowered = lower_all_chars(mixed_str);
        chars_eq(lower_str, &lowered)
    } else {
        let a = str_to_lowercase(deunicode_str(string_of(lower_str).as_str()).as_str());
        let b = str_to_lowercase(deunicode_str(string_of(mixed_str).as_str()).as_str());
        str_eq(a.as_str(), b.as_str())
    }
}

// ---------------------------------------------------------------------------
// Matching a phrase against a name
// ---------------------------------------------------------------------------

/// The words of an optional word list (none when it is absent).
pub open spec fn opt_words(o: Option<Seq<Seq<char>>>) -> Seq<Seq<char>> {
    match o {
        Some(w) => w,
        None => seq![],
    }
}

/// Whether the typed word equals one of the words `vs`.
pub open spec fn matches_some(w: Seq<char>, vs: Seq<Seq<char>>, strict: bool) -> bool {
    exists|j: int| 0 <= j < vs.len() && same_word(w, #[trigger] vs[j], strict)
}

/// Whether a typed adjective describes the entity: it is one of the adjectives injected
/// while rendering, one of the entity's adjectives, or one of their synonyms.
pub open spec fn adjective_known(w: Seq<char>, e: TemplateEntity, inline: Seq<Seq<char>>, strict: bool) -> bool {
    ||| matches_some(w, inline, strict)
    ||| matches_some(w, opt_words(adjectives_spec(e)), strict)
    ||| matches_some(w, opt_words(synonyms_spec(e)), strict)
}

/// Whether every typed adjective describes the entity.
pub open spec fn adjectives_known(adjs: Seq<Seq<char>>, e: TemplateEntity, inline: Seq<Seq<char>>, strict: bool) -> bool {
    forall|i: int| 0 <= i < adjs.len() ==> adjective_known(#[trigger] adjs[i], e, inline, strict)
}

/// Whether two word lists are equal word by word.
pub open spec fn words_equal(a: Seq<Seq<char>>, b: Seq<Seq<char>>, strict: bool) -> bool {
    a.len() == b.len() && forall|i: int| 0 <= i < b.len() ==> same_word(#[trigger] a[i], b[i], strict)
}

/// Whether the typed words end with "<collective noun> of <name>" ("pack of wolves").
pub open spec fn collective_split(rem: Seq<Seq<char>>, name: Seq<Seq<char>>, e: TemplateEntity, strict: bool) -> bool {
    match collective_spec(e) {
        Some(col) => {
            &&& rem.len() >= name.len() + 2
            &&& same_word(rem[rem.len() - name.len() - 2], col, strict)
            &&& same_word(rem[rem.len() - name.len() - 1], "of"@, strict)
            &&& words_equal(rem.skip(rem.len() - name.len()), name, strict)
        },
        None => false,
    }
}

/// Whether a typed phrase names an entity by `target_name`: articles aside, the phrase ends
/// with the words of the name (or with "<collective noun> of <name>"), and every word
/// before them is an adjective that describes the entity.
pub open spec fn phrase_matches(input: Seq<char>, target_name: Seq<char>, e: TemplateEntity, inline: Seq<Seq<char>>, strict: bool) -> bool {
    let rem = words(stripped(input));
    let name = words(stripped(target_name));
    if name.len() == 0 || rem.len() < name.len() {
        false
    } else if collective_split(rem, name, e, strict) {
        adjectives_known(rem.take(rem.len() - name.len() - 2), e, inline, strict)
    } else if words_equal(rem.skip(rem.len() - name.len()), name, strict) {
        adjectives_known(rem.take(rem.len() - name.len()), e, inline, strict)
    } else {
        false
    }
}

/// Whether the typed word equals one of the strings `vs`.
fn matches_some_exec(w: &Vec<char>, vs: &Vec<String>, strict: bool) -> (r: bool)
    ensures
        r == matches_some(w@, string_views(vs@), strict),
{
    let ghost sv = string_views(vs@);
    let mut j: usize = 0;
    while j < vs.len()
        invariant
            j <= vs.len(),
            sv == string_views(vs@),
            forall|k: int| 0 <= k < j ==> !same_word(w@, #[trigger] sv[k], strict),
        decreases vs.len() - j,
    {
        let v = chars_of(vs[j].as_str());
        if eq_ignore_case(w, &v, strict) {
            assert(same_word(w@, sv[j as int], strict));
            return true;
        }
        j = j + 1;
    }
    false
}

/// Whether the typed word equals one of the optional strings.
fn matches_some_opt(w: &Vec<char>, vs: &Option<Vec<String>>, strict: bool) -> (r: bool)
    ensures
        r == matches_some(w@, opt_words(match vs { Some(v) => Some(string_views(v@)), None => None }), strict),
{
    match vs {
        Some(v) => matches_some_exec(w, v, strict),
        None => false,
    }
}

/// Whether every word `words[lo..hi]` is an adjective that describes the entity.
fn adjectives_known_exec(
    ws: &Vec<Vec<char>>,
    hi: usize,
    e: &TemplateEntity,
    inline: &Vec<String>,
    strict: bool,
) -> (r: bool)
    requires
        hi <= ws.len(),
    ensures
        r == adjectives_known(views(ws@).take(hi as int), *e, string_views(inline@), strict),
{
    let ghost adjs = views(ws@).take(hi as int);
    let valid = e.adjectives();
    let synonyms = e.adjective_synonyms();
    let mut i: usize = 0;
    while i < hi
        invariant
            i <= hi <= ws.len(),
            adjs == views(ws@).take(hi as int),
            match valid {
                Some(a) => adjectives_spec(*e) == Some(string_views(a@)),
                None => adjectives_spec(*e) is None,
            },
            match synonyms {
                Some(a) => synonyms_spec(*e) == Some(string_views(a@)),
                None => synonyms_spec(*e) is None,
            },
            forall|k: int| 0 <= k < i ==> adjective_known(#[trigger] adjs[k], *e, string_views(inline@), strict),
        decreases hi - i,
    {
        let w = &ws[i];
        assert(adjs[i as int] == w@);
        let known = matches_some_exec(w, inline, strict) || matches_some_opt(w, &valid, strict)
            || matches_some_opt(w, &synonyms, strict);
        if !known {
            return false;
        }
        i = i + 1;
    }
    true
}

/// Whether `a[from..]` equals `b` word by word.
fn words_equal_exec(a: &Vec<Vec<char>>, from: usize, b: &Vec<Vec<char>>, strict: bool) -> (r: bool)
    requires
        from <= a.len(),
    ensures
        r == words_equal(views(a@).skip(from as int), views(b@), strict),
{
    let ghost x = views(a@).skip(from as int);
    let ghost y = views(b@);
    if a.len() - from != b.len() {
        return false;
    }
    let mut i: usize = 0;
    while i < b.len()
        invariant
            from <= a.len(),
            a.len() - from == b.len(),
            x == views(a@).skip(from as int),
            y == views(b@),
            i <= b.len(),
            forall|k: int| 0 <= k < i ==> same_word(#[trigger] x[k], y[k], strict),
        decreases b.len() - i,
    {
        assert(x[i as int] == a@[from + i]@);
        if !eq_ignore_case(&a[from + i], &b[i], strict) {
            return false;
        }
        i = i + 1;
    }
    true
}

/// Whether a typed phrase names the entity by `target_name` (see `phrase_matches`).
pub fn check_phrase_match(
    input: &Vec<char>,
    target_name: &Vec<char>,
    entity: &TemplateEntity,
    inline_adjectives: &Vec<String>,
    strict_diacritics: bool,
) -> (r: bool)
    ensures
        r == phrase_matches(input@, target_name@, *entity, string_views(inline_adjectives@), strict_diacritics),
{
    let rem_words = split_words(&strip_articles(input));
    let name_words = split_words(&strip_articles(target_name));
    let ghost rem = words(stripped(input@));
    let ghost name = words(stripped(target_name@));
    assert(views(rem_words@) =~= rem);
    assert(views(name_words@) =~= name);
    if name_words.len() == 0 || rem_words.len() < name_words.len() {
        return false;
    }
    let k = rem_words.len() - name_words.len();
    let ghost inl = string_views(inline_adjectives@);
    match entity.collective_noun() {
        Some(col) => {
            if k >= 2 {
                let colv = chars_of(col.as_str());
                let of_word = chars_of("of");
                assert(rem[k - 2] == rem_words@[k - 2]@);
                assert(rem[k - 1] == rem_words@[k - 1]@);
                if eq_ignore_case(&rem_words[k - 2], &colv, strict_diacritics)
                    && eq_ignore_case(&rem_words[k - 1], &of_word, strict_diacritics)
                    && words_equal_exec(&rem_words, k, &name_words, strict_diacritics) {
                    assert(collective_split(rem, name, *entity, strict_diacritics));
                    return adjectives_known_exec(&rem_words, k - 2, entity, inline_adjectives, strict_diacritics);
                }
                assert(!collective_split(rem, name, *entity, strict_diacritics));
            }
        },
        None => {},
    }
    if words_equal_exec(&rem_words, k, &name_words, strict_diacritics) {
        return adjectives_known_exec(&rem_words, k, entity, inline_adjectives, strict_diacritics);
    }
    false
}

// ---------------------------------------------------------------------------
// Pronouns
// ---------------------------------------------------------------------------

/// The pronouns that refer to a single male entity.
pub open spec fn male_pronouns() -> Seq<Seq<char>> {
    seq!["he"@, "him"@, "his"@, "himself"@]
}

/// The pronouns that refer to a single female entity.
pub open spec fn female_pronouns() -> Seq<Seq<char>> {
    seq!["she"@, "her"@, "hers"@, "herself"@]
}

/// The pronouns that refer to a single neutral entity.
pub open spec fn neutral_pronouns() -> Seq<Seq<char>> {
    seq!["it"@, "its"@, "itself"@]
}

/// The pronouns that refer to plural entities (or to a singular "they").
pub open spec fn plural_pronouns() -> Seq<Seq<char>> {
    seq!["they"@, "them"@, "their"@, "theirs"@, "themselves"@]
}

/// The pronouns that refer to the viewer.
pub open spec fn viewer_pronouns() -> Seq<Seq<char>> {
    seq![
        "you"@, "your"@, "yours"@, "yourself"@, "yourselves"@, "i"@, "me"@, "my"@, "mine"@,
        "myself"@, "we"@, "us"@, "our"@, "ours"@, "ourselves"@,
    ]
}

/// Whether a description is one of the pronouns that target resolution understands.
pub open spec fn is_pronoun(d: Seq<char>) -> bool {
    ||| male_pronouns().contains(d)
    ||| female_pronouns().contains(d)
    ||| neutral_pronouns().contains(d)
    ||| plural_pronouns().contains(d)
    ||| viewer_pronouns().contains(d)
}

/// Whether a pronoun can refer to a remembered entity: the viewer is referred to by the
/// viewer's pronouns only; other entities by the pronouns of their gender and number.
pub open spec fn pronoun_fits(d: Seq<char>, r: RecentModel) -> bool {
    if r.flags.is_viewer_normal || r.flags.is_viewer_forced {
        viewer_pronouns().contains(d)
    } else if male_pronouns().contains(d) {
        r.gender == Gender::Male && !r.flags.is_plural
    } else if female_pronouns().contains(d) {
        r.gender == Gender::Female && !r.flags.is_plural
    } else if neutral_pronouns().contains(d) {
        r.gender == Gender::Neutral && !r.flags.is_plural
    } else if plural_pronouns().contains(d) {
        r.gender == Gender::Plural || r.flags.is_plural
    } else {
        false
    }
}

/// The (key, entity) pairs of a list of matches.
pub open spec fn found_views<'a>(v: Seq<(String, &'a TemplateEntity)>) -> Seq<(Seq<char>, TemplateEntity)> {
    v.map_values(|p: (String, &'a TemplateEntity)| (p.0@, *p.1))
}

/// The remembered entities, oldest first, that the pronoun can refer to and whose key the
/// context can resolve.
pub open spec fn pronoun_targets(ctx: RenderContext, rs: Seq<RecentModel>, d: Seq<char>) -> Seq<(Seq<char>, TemplateEntity)>
    decreases rs.len(),
{
    if rs.len() == 0 {
        seq![]
    } else {
        let prev = pronoun_targets(ctx, rs.drop_last(), d);
        let r = rs.last();
        match entity_for(ctx, r.key) {
            Some(e) => if pronoun_fits(d, r) { prev.push((r.key, e)) } else { prev },
            None => prev,
        }
    }
}

/// Whether `d` is one of the words of `list`.
fn contains_word(list: &Vec<Vec<char>>, d: &Vec<char>) -> (r: bool)
    ensures
        r == views(list@).contains(d@),
{
    let mut i: usize = 0;
    while i < list.len()
        invariant
            i <= list.len(),
            forall|k: int| 0 <= k < i ==> views(list@)[k] != d@,
        decreases list.len() - i,
    {
        if chars_eq(&list[i], d) {
            assert(views(list@)[i as int] == d@);
            return true;
        }
        i = i + 1;
    }
    false
}

fn male_pronoun_chars() -> (r: Vec<Vec<char>>)
    ensures
        views(r@) == male_pronouns(),
{
    let r = vec![chars_of("he"), chars_of("him"), chars_of("his"), chars_of("himself")];
    assert(views(r@) =~= male_pronouns());
    r
}

fn female_pronoun_chars() -> (r: Vec<Vec<char>>)
    ensures
        views(r@) == female_pronouns(),
{
    let r = vec![chars_of("she"), chars_of("her"), chars_of("hers"), chars_of("herself")];
    assert(views(r@) =~= female_pronouns());
    r
}

fn neutral_pronoun_chars() -> (r: Vec<Vec<char>>)
    ensures
        views(r@) == neutral_pronouns(),
{
    let r = vec![chars_of("it"), chars_of("its"), chars_of("itself")];
    assert(views(r@) =~= neutral_pronouns());
    r
}

fn plural_pronoun_chars() -> (r: Vec<Vec<char>>)
    ensures
        views(r@) == plural_pronouns(),
{
    let r = vec![
        chars_of("they"), chars_of("them"), chars_of("their"), chars_of("theirs"),
        chars_of("themselves"),
    ];
    assert(views(r@) =~= plural_pronouns());
    r
}

fn viewer_pronoun_chars() -> (r: Vec<Vec<char>>)
    ensures
        views(r@) == viewer_pronouns(),
{
    let r = vec![
        chars_of("you"), chars_of("your"), chars_of("yours"), chars_of("yourself"),
        chars_of("yourselves"), chars_of("i"), chars_of("me"), chars_of("my"), chars_of("mine"),
        chars_of("myself"), chars_of("we"), chars_of("us"), chars_of("our"), chars_of("ours"),
        chars_of("ourselves"),
    ];
    assert(views(r@) =~= viewer_pronouns());
    r
}

/// Whether a description is one of the understood pronouns.
pub fn is_pronoun_exec(d: &Vec<char>) -> (r: bool)
    ensures
        r == is_pronoun(d@),
{
    contains_word(&male_pronoun_chars(), d) || contains_word(&female_pronoun_chars(), d)
        || contains_word(&neutral_pronoun_chars(), d) || contains_word(&plural_pronoun_chars(), d)
        || contains_word(&viewer_pronoun_chars(), d)
}

/// Whether the pronoun can refer to the remembered entity (see `pronoun_fits`).
fn pronoun_fits_exec(d: &Vec<char>, recent: &RecentEntity) -> (r: bool)
    ensures
        r == pronoun_fits(d@, recent@),
{
    let is_plural = recent.flags.is_plural;
    let gender = recent.gender;
    if recent.flags.is_viewer_normal || recent.flags.is_viewer_forced {
        contains_word(&viewer_pronoun_chars(), d)
    } else if contains_word(&male_pronoun_chars(), d) {
        gender == Gender::Male && !is_plural
    } else if contains_word(&female_pronoun_chars(), d) {
        gender == Gender::Female && !is_plural
    } else if contains_word(&neutral_pronoun_chars(), d) {
        gender == Gender::Neutral && !is_plural
    } else if contains_word(&plural_pronoun_chars(), d) {
        gender == Gender::Plural || is_plural
    } else {
        false
    }
}

impl<'a> RenderContext<'a> {
    /// The remembered entities that a pronoun can refer to, oldest first; `None` when the
    /// description is not a pronoun.
    pub fn resolve_pronoun_targets(&self, base_desc: &Vec<char>) -> (r: Option<Vec<(String, &'a TemplateEntity)>>)
        ensures
            match r {
                Some(v) => is_pronoun(base_desc@) && found_views(v@) == pronoun_targets(
                    *self,
                    recent_views(self.recent_entities@),
                    base_desc@,
                ),
                None => !is_pronoun(base_desc@),
            },
    {
        if !is_pronoun_exec(base_desc) {
            return None;
        }
        let ghost rs = recent_views(self.recent_entities@);
        let mut matches: Vec<(String, &'a TemplateEntity)> = Vec::new();
        let mut i: usize = 0;
        assert(rs.take(0) =~= Seq::<RecentModel>::empty());
        while i < self.recent_entities.len()
            invariant
                i <= self.recent_entities.len(),
                rs == recent_views(self.recent_entities@),
                found_views(matches@) == pronoun_targets(*self, rs.take(i as int), base_desc@),
            decreases self.recent_entities.len() - i,
        {
            let recent = &self.recent_entities[i];
            assert(rs.take(i + 1).drop_last() =~= rs.take(i as int));
            assert(rs.take(i + 1).last() == recent@);
            match self.get_entity(recent.key.as_str()) {
                Some(entity) => {
                    if pronoun_fits_exec(base_desc, recent) {
                        let ghost before = found_views(matches@);
                        matches.push((recent.key.clone(), entity));
                        assert(found_views(matches@) =~= before.push((recent@.key, *entity)));
                    }
                },
                None => {},
            }
            i = i + 1;
        }
        assert(rs.take(i as int) =~= rs);
        Some(matches)
    }
}

// ---------------------------------------------------------------------------
// Ordinals ("the second wolf", "wolf 2")
// ---------------------------------------------------------------------------

/// Whether an ordinal record's name key concerns `name`: it is the name, or ends with
/// "::<name>" (a namespaced key) or " <name>" (a name with adjectives).
pub open spec fn ordinal_key_matches(k: Seq<char>, name: Seq<char>) -> bool {
    k == name || ends_with(k, "::"@ + name) || ends_with(k, " "@ + name)
}

/// Whether ordinal `o` is recorded for the key under a name key that concerns `name`.
pub open spec fn ordinal_recorded(states: Seq<(String, OrdinalState)>, name: Seq<char>, key: Seq<char>, o: usize) -> bool {
    exists|j: int|
        0 <= j < states.len() && ordinal_key_matches((#[trigger] states[j]).0@, name) && lookup(
            states[j].1.members@,
            key,
        ) == Some(o)
}

/// Whether the text begins with an ordinal suffix ("th", "st", "nd", "rd").
pub open spec fn starts_with_ordinal_suffix(s: Seq<char>) -> bool {
    starts_with(s, "th"@) || starts_with(s, "st"@) || starts_with(s, "nd"@) || starts_with(s, "rd"@)
}

/// Whether the text ends with an ordinal suffix ("th", "st", "nd", "rd").
pub open spec fn ends_with_ordinal_suffix(s: Seq<char>) -> bool {
    ends_with(s, "th"@) || ends_with(s, "st"@) || ends_with(s, "nd"@) || ends_with(s, "rd"@)
}

/// Whether, after its first `n` characters and a space, the description names the entity.
pub open spec fn after_prefix_matches(desc: Seq<char>, n: int, name: Seq<char>, e: TemplateEntity, inline: Seq<Seq<char>>, strict: bool) -> bool {
    desc.len() > n && desc[n] == ' ' && phrase_matches(trim_start(desc.skip(n + 1)), name, e, inline, strict)
}

/// Whether, before a space and its last `n` characters, the description names the entity.
pub open spec fn before_postfix_matches(desc: Seq<char>, n: int, name: Seq<char>, e: TemplateEntity, inline: Seq<Seq<char>>, strict: bool) -> bool {
    desc.len() > n && desc[desc.len() - n - 1] == ' ' && phrase_matches(
        trim_end(desc.take(desc.len() - n - 1)),
        name,
        e,
        inline,
        strict,
    )
}

/// Whether the description names the entity by `name` together with ordinal `o`: the
/// ordinal word or number (with or without its suffix) before the name ("second wolf",
/// "2nd wolf", "2 wolf"), or after it ("wolf second", "wolf 2nd", "wolf 2").
pub open spec fn ordinal_phrase_matches(ctx: RenderContext, o: usize, name: Seq<char>, desc: Seq<char>, e: TemplateEntity, inline: Seq<Seq<char>>) -> bool {
    let strict = ctx.strict_diacritics;
    let w = unicode_lowercase(ordinal_word(o as nat, ctx.ordinal_word_threshold as nat));
    let d = decimal(o as nat);
    ||| starts_with(desc, w) && after_prefix_matches(desc, w.len() as int, name, e, inline, strict)
    ||| starts_with(desc, d) && starts_with_ordinal_suffix(desc.skip(d.len() as int))
        && after_prefix_matches(desc, d.len() as int + 2, name, e, inline, strict)
    ||| starts_with(desc, d) && after_prefix_matches(desc, d.len() as int, name, e, inline, strict)
    ||| ends_with(desc, w) && before_postfix_matches(desc, w.len() as int, name, e, inline, strict)
    ||| ends_with_ordinal_suffix(desc) && desc.len() >= 2 + d.len() && ends_with(desc.take(desc.len() - 2), d)
        && before_postfix_matches(desc, d.len() as int + 2, name, e, inline, strict)
    ||| ends_with(desc, d) && before_postfix_matches(desc, d.len() as int, name, e, inline, strict)
}

/// Whether the description names the entity by `name` with one of the ordinals recorded for
/// it under that name, or with "first" when none is recorded.
pub open spec fn ordinals_match(ctx: RenderContext, name: Seq<char>, key: Seq<char>, desc: Seq<char>, e: TemplateEntity, inline: Seq<Seq<char>>) -> bool {
    if exists|o: usize| ordinal_recorded(ctx.ordinals@, name, key, o) {
        exists|o: usize|
            #[trigger] ordinal_recorded(ctx.ordinals@, name, key, o) && ordinal_phrase_matches(
                ctx,
                o,
                name,
                desc,
                e,
                inline,
            )
    } else {
        ordinal_phrase_matches(ctx, 1, name, desc, e, inline)
    }
}

/// Whether the text begins with an ordinal suffix.
fn starts_with_ordinal_suffix_exec(s: &Vec<char>) -> (r: bool)
    ensures
        r == starts_with_ordinal_suffix(s@),
{
    chars_starts_with(s, &chars_of("th")) || chars_starts_with(s, &chars_of("st"))
        || chars_starts_with(s, &chars_of("nd")) || chars_starts_with(s, &chars_of("rd"))
}

/// Whether the text ends with an ordinal suffix.
fn ends_with_ordinal_suffix_exec(s: &Vec<char>) -> (r: bool)
    ensures
        r == ends_with_ordinal_suffix(s@),
{
    chars_ends_with(s, &chars_of("th")) || chars_ends_with(s, &chars_of("st"))
        || chars_ends_with(s, &chars_of("nd")) || chars_ends_with(s, &chars_of("rd"))
}

/// `after_prefix_matches` for `n == base + extra`.
fn after_prefix_exec(
    desc: &Vec<char>,
    base: usize,
    extra: usize,
    name: &Vec<char>,
    e: &TemplateEntity,
    inline: &Vec<String>,
    strict: bool,
) -> (r: bool)
    requires
        base <= desc.len(),
    ensures
        r == after_prefix_matches(desc@, base + extra, name@, *e, string_views(inline@), strict),
{
    if desc.len() - base > extra && desc[base + extra] == ' ' {
        let rest = chars_trim_start(&subrange_of(desc, base + extra + 1, desc.len()));
        assert(desc@.subrange(base + extra + 1, desc.len() as int) =~= desc@.skip(base + extra + 1));
        check_phrase_match(&rest, name, e, inline, strict)
    } else {
        false
    }
}

/// `before_postfix_matches` for `n == base + extra`.
fn before_postfix_exec(
    desc: &Vec<char>,
    base: usize,
    extra: usize,
    name: &Vec<char>,
    e: &TemplateEntity,
    inline: &Vec<String>,
    strict: bool,
) -> (r: bool)
    requires
        base <= desc.len(),
    ensures
        r == before_postfix_matches(desc@, base + extra, name@, *e, string_views(inline@), strict),
{
    if desc.len() - base > extra {
        let idx = desc.len() - base - extra - 1;
        if desc[idx] == ' ' {
            let rest = chars_trim_end(&subrange_of(desc, 0, idx));
            assert(desc@.subrange(0, idx as int) =~= desc@.take(idx as int));
            return check_phrase_match(&rest, name, e, inline, strict);
        }
    }
    false
}

/// Whether `o` is among the ordinals.
fn contains_ordinal(ords: &Vec<usize>, o: usize) -> (r: bool)
    ensures
        r == ords@.contains(o),
{
    let mut i: usize = 0;
    while i < ords.len()
        invariant
            i <= ords.len(),
            forall|k: int| 0 <= k < i ==> ords@[k] != o,
        decreases ords.len() - i,
    {
        if ords[i] == o {
            assert(ords@[i as int] == o);
            return true;
        }
        i = i + 1;
    }
    false
}

/// Whether the record's name key concerns `name` (see `ordinal_key_matches`).
fn ordinal_key_matches_exec(k: &str, name: &Vec<char>) -> (r: bool)
    ensures
        r == ordinal_key_matches(k@, name@),
{
    let kv = chars_of(k);
    let mut suffix_ns = chars_of("::");
    append_chars(&mut suffix_ns, name);
    let mut suffix_adj = chars_of(" ");
    append_chars(&mut suffix_adj, name);
    chars_eq(&kv, name) || chars_ends_with(&kv, &suffix_ns) || chars_ends_with(&kv, &suffix_adj)
}

proof fn lemma_recorded_step(states: Seq<(String, OrdinalState)>, name: Seq<char>, key: Seq<char>, i: int, o: usize)
    requires
        0 <= i < states.len(),
    ensures
        ordinal_recorded(states.take(i + 1), name, key, o) <==> (ordinal_recorded(states.take(i), name, key, o) || (
        ordinal_key_matches(states[i].0@, name) && lookup(states[i].1.members@, key) == Some(o))),
{
    let a = states.take(i);
    let b = states.take(i + 1);
    if ordinal_recorded(a, name, key, o) {
        let j = choose|j: int|
            0 <= j < a.len() && ordinal_key_matches((#[trigger] a[j]).0@, name) && lookup(a[j].1.members@, key) == Some(o);
        assert(b[j] == a[j]);
    }
    if ordinal_key_matches(states[i].0@, name) && lookup(states[i].1.members@, key) == Some(o) {
        assert(b[i] == states[i]);
    }
    if ordinal_recorded(b, name, key, o) {
        let j = choose|j: int|
            0 <= j < b.len() && ordinal_key_matches((#[trigger] b[j]).0@, name) && lookup(b[j].1.members@, key) == Some(o);
        if j < i {
            assert(a[j] == b[j]);
        }
    }
}

impl<'a> RenderContext<'a> {
    /// Whether the description names the entity by `name_to_check` with one of the ordinals
    /// recorded for it under that name, or with "first" when none is (see `ordinals_match`).
    fn check_ordinals(
        &self,
        name_to_check: &Vec<char>,
        key: &str,
        clean_desc: &Vec<char>,
        entity: &TemplateEntity,
        inline_adjectives: &Vec<String>,
    ) -> (r: bool)
        ensures
            r == ordinals_match(*self, name_to_check@, key@, clean_desc@, *entity, string_views(inline_adjectives@)),
    {
        let ghost states = self.ordinals@;
        let ghost name = name_to_check@;
        let mut ords: Vec<usize> = Vec::new();
        let mut i: usize = 0;
        while i < self.ordinals.len()
            invariant
                i <= self.ordinals.len(),
                states == self.ordinals@,
                name == name_to_check@,
                forall|o: usize| ords@.contains(o) <==> ordinal_recorded(states.take(i as int), name, key@, o),
            decreases self.ordinals.len() - i,
        {
            let ghost before = ords@;
            let state = &self.ordinals[i].1;
            if ordinal_key_matches_exec(self.ordinals[i].0.as_str(), name_to_check) {
                match find_key(&state.members, key) {
                    Some(m) => {
                        let o = state.members[m].1;
                        if !contains_ordinal(&ords, o) {
                            ords.push(o);
                        }
                    },
                    None => {},
                }
            }
            proof {
                assert forall|o: usize| ords@.contains(o) <==> ordinal_recorded(states.take(i + 1), name, key@, o) by {
                    lemma_recorded_step(states, name, key@, i as int, o);
                    if ords@.contains(o) && !before.contains(o) {
                        let k = choose|k: int| 0 <= k < ords@.len() && ords@[k] == o;
                        assert(k == before.len());
                    }
                    if before.contains(o) {
                        let k = choose|k: int| 0 <= k < before.len() && before[k] == o;
                        assert(ords@[k] == o);
                    }
                    if ords@ != before {
                        assert(ords@[before.len() as int] == ords@.last());
                    }
                }
            }
            i = i + 1;
        }
        assert(states.take(i as int) =~= states);
        let ghost any_recorded = ords.len() > 0;
        proof {
            if !any_recorded {
                assert forall|o: usize| !ordinal_recorded(states, name, key@, o) by {
                    if ordinal_recorded(states, name, key@, o) {
                        assert(ords@.contains(o));
                    }
                }
            } else {
                assert(ords@.contains(ords@[0]));
                assert(ordinal_recorded(states, name, key@, ords@[0]));
            }
        }
        if ords.len() == 0 {
            ords.push(1);
        }
        let mut j: usize = 0;
        while j < ords.len()
            invariant
                j <= ords.len(),
                states == self.ordinals@,
                name == name_to_check@,
                any_recorded ==> forall|o: usize| ords@.contains(o) <==> ordinal_recorded(states, name, key@, o),
                !any_recorded ==> ords@ == seq![1usize],
                any_recorded <==> exists|o: usize| ordinal_recorded(states, name, key@, o),
                forall|k: int| 0 <= k < j ==> !ordinal_phrase_matches(*self, #[trigger] ords@[k], name, clean_desc@, *entity, string_views(inline_adjectives@)),
            decreases ords.len() - j,
        {
            if self.ordinal_phrase_match(ords[j], name_to_check, clean_desc, entity, inline_adjectives) {
                proof {
                    if any_recorded {
                        assert(ords@.contains(ords@[j as int]));
                        assert(ordinal_recorded(states, name, key@, ords@[j as int]));
                    }
                }
                return true;
            }
            j = j + 1;
        }
        proof {
            if any_recorded {
                assert forall|o: usize| ordinal_recorded(states, name, key@, o) implies !ordinal_phrase_matches(
                    *self, o, name, clean_desc@, *entity, string_views(inline_adjectives@)) by {
                    assert(ords@.contains(o));
                    let k = choose|k: int| 0 <= k < ords@.len() && ords@[k] == o;
                    assert(!ordinal_phrase_matches(*self, ords@[k], name, clean_desc@, *entity, string_views(inline_adjectives@)));
                }
            } else {
                assert(!ordinal_phrase_matches(*self, ords@[0], name, clean_desc@, *entity, string_views(inline_adjectives@)));
            }
        }
        false
    }

    /// Whether the description names the entity by `name_to_check` together with ordinal `o`
    /// (see `ordinal_phrase_matches`).
    fn ordinal_phrase_match(
        &self,
        o: usize,
        name_to_check: &Vec<char>,
        clean_desc: &Vec<char>,
        entity: &TemplateEntity,
        inline_adjectives: &Vec<String>,
    ) -> (r: bool)
        ensures
            r == ordinal_phrase_matches(*self, o, name_to_check@, clean_desc@, *entity, string_views(inline_adjectives@)),
    {
        let strict = self.strict_diacritics;
        let ord_word = chars_of(
            str_to_lowercase(number_to_ordinal_word(o, self.ordinal_word_threshold).as_str()).as_str(),
        );
        let ord_str = chars_of(usize_to_string(o).as_str());
        // 1. The ordinal word before the name.
        if chars_starts_with(clean_desc, &ord_word)
            && after_prefix_exec(clean_desc, ord_word.len(), 0, name_to_check, entity, inline_adjectives, strict) {
            return true;
        }
        // 2. The number before the name, with or without its suffix.
        if chars_starts_with(clean_desc, &ord_str) {
            let after_num = subrange_of(clean_desc, ord_str.len(), clean_desc.len());
            assert(after_num@ =~= clean_desc@.skip(ord_str.len() as int));
            if starts_with_ordinal_suffix_exec(&after_num)
                && after_prefix_exec(clean_desc, ord_str.len(), 2, name_to_check, entity, inline_adjectives, strict) {
                return true;
            }
            if after_prefix_exec(clean_desc, ord_str.len(), 0, name_to_check, entity, inline_adjectives, strict) {
                return true;
            }
        }
        // 3. The ordinal word after the name.
        if chars_ends_with(clean_desc, &ord_word)
            && before_postfix_exec(clean_desc, ord_word.len(), 0, name_to_check, entity, inline_adjectives, strict) {
            return true;
        }
        // 4. The number after the name, with its suffix.
        if ends_with_ordinal_suffix_exec(clean_desc) && clean_desc.len() >= 2 && clean_desc.len() - 2 >= ord_str.len() {
            let head = subrange_of(clean_desc, 0, clean_desc.len() - 2);
            assert(head@ =~= clean_desc@.take(clean_desc.len() - 2));
            if chars_ends_with(&head, &ord_str)
                && before_postfix_exec(clean_desc, ord_str.len(), 2, name_to_check, entity, inline_adjectives, strict) {
                return true;
            }
        }
        // 5. The number after the name, without a suffix.
        if chars_ends_with(clean_desc, &ord_str)
            && before_postfix_exec(clean_desc, ord_str.len(), 0, name_to_check, entity, inline_adjectives, strict) {
            return true;
        }
        false
    }
}

// ---------------------------------------------------------------------------
// Names
// ---------------------------------------------------------------------------

/// The memory entry of a key, if the key is remembered.
pub open spec fn memory_entry(ctx: RenderContext, key: Seq<char>) -> Option<RecentModel> {
    recent_entry(recent_views(ctx.recent_entities@), key)
}

/// The adjectives injected for a key while rendering (none when it is not remembered).
pub open spec fn inline_for(ctx: RenderContext, key: Seq<char>) -> Seq<Seq<char>> {
    match memory_entry(ctx, key) {
        Some(m) => m.adjectives,
        None => seq![],
    }
}

/// The names under which an entity can be targeted: the name the viewer sees, the name seen
/// in the Director Stance, the name it was last rendered under (when it differs from both),
/// its long description, and its aliases.
pub open spec fn candidate_names(ctx: RenderContext, key: Seq<char>, e: TemplateEntity) -> Seq<Seq<char>> {
    let short = name_spec(e, ctx.viewer_id@);
    let short_3rd = name_spec(e, NULL_VIEWER@);
    let rendered: Seq<Seq<char>> = match memory_entry(ctx, key) {
        Some(m) => match m.resolved_name {
            Some(n) => if n != short && n != short_3rd { seq![n] } else { seq![] },
            None => seq![],
        },
        None => seq![],
    };
    let long: Seq<Seq<char>> = match long_name_spec(e) {
        Some(l) => seq![l],
        None => seq![],
    };
    seq![short, short_3rd] + rendered + long + opt_words(aliases_spec(e))
}

/// Whether a cleaned description names the entity: by one of its names (with adjectives
/// that describe it), or by one of them with an ordinal.
pub open spec fn name_matches(ctx: RenderContext, key: Seq<char>, e: TemplateEntity, desc: Seq<char>) -> bool {
    let names = candidate_names(ctx, key, e);
    let inline = inline_for(ctx, key);
    ||| exists|i: int| 0 <= i < names.len() && phrase_matches(desc, #[trigger] names[i], e, inline, ctx.strict_diacritics)
    ||| exists|i: int| 0 <= i < names.len() && ordinals_match(ctx, #[trigger] names[i], key, desc, e, inline)
}

impl<'a> RenderContext<'a> {
    /// The names under which an entity can be targeted (see `candidate_names`).
    fn names_to_check(&self, key: &str, entity: &TemplateEntity) -> (r: Vec<Vec<char>>)
        ensures
            views(r@) == candidate_names(*self, key@, *entity),
    {
        let short_name = chars_of(entity.display_name_for(self.viewer_id).as_str());
        let short_name_3rd = chars_of(entity.display_name_for(NULL_VIEWER).as_str());
        let long_name = entity.long_display_name_for(self.viewer_id);
        let mut names: Vec<Vec<char>> = Vec::new();
        let mut rendered: Option<Vec<char>> = None;
        match recent_position(&self.recent_entities, key) {
            Some(i) => {
                assert(memory_entry(*self, key@) == Some(self.recent_entities@[i as int]@));
                match &self.recent_entities[i].resolved_name {
                    Some(rn) => {
                        let rnv = chars_of(rn.as_str());
                        if !chars_eq(&rnv, &short_name) && !chars_eq(&rnv, &short_name_3rd) {
                            rendered = Some(rnv);
                        }
                    },
                    None => {},
                }
            },
            None => {},
        }
        names.push(short_name);
        names.push(short_name_3rd);
        match rendered {
            Some(rn) => names.push(rn),
            None => {},
        }
        match long_name {
            Some(ln) => names.push(chars_of(ln.as_str())),
            None => {},
        }
        let ghost head = views(names@);
        match entity.aliases() {
            Some(aliases) => {
                let mut j: usize = 0;
                while j < aliases.len()
                    invariant
                        j <= aliases.len(),
                        views(names@) == head + string_views(aliases@).take(j as int),
                    decreases aliases.len() - j,
                {
                    let ghost before = views(names@);
                    names.push(chars_of(aliases[j].as_str()));
                    assert(views(names@) =~= before.push(aliases@[j as int]@));
                    assert(string_views(aliases@).take(j + 1) =~= string_views(aliases@).take(j as int).push(aliases@[j as int]@));
                    j = j + 1;
                }
                assert(string_views(aliases@).take(j as int) =~= string_views(aliases@));
            },
            None => {
                assert(head =~= head + Seq::<Seq<char>>::empty());
            },
        }
        assert(views(names@) =~= candidate_names(*self, key@, *entity));
        names
    }

    /// Whether a cleaned description names the entity (see `name_matches`).
    fn entity_matches_name(&self, key: &str, entity: &TemplateEntity, clean_desc: &Vec<char>) -> (r: bool)
        ensures
            r == name_matches(*self, key@, *entity, clean_desc@),
    {
        let empty: Vec<String> = Vec::new();
        let inline_adjectives: &Vec<String> = match recent_position(&self.recent_entities, key) {
            Some(i) => &self.recent_entities[i].adjectives,
            None => &empty,
        };
        assert(string_views(inline_adjectives@) =~= inline_for(*self, key@));
        let names = self.names_to_check(key, entity);
        let ghost nv = views(names@);
        let ghost inline = inline_for(*self, key@);
        let mut i: usize = 0;
        while i < names.len()
            invariant
                i <= names.len(),
                nv == views(names@),
                nv == candidate_names(*self, key@, *entity),
                inline == inline_for(*self, key@),
                string_views(inline_adjectives@) == inline,
                forall|k: int| 0 <= k < i ==> !phrase_matches(clean_desc@, #[trigger] nv[k], *entity, inline, self.strict_diacritics),
            decreases names.len() - i,
        {
            if check_phrase_match(clean_desc, &names[i], entity, inline_adjectives, self.strict_diacritics) {
                assert(phrase_matches(clean_desc@, nv[i as int], *entity, inline, self.strict_diacritics));
                return true;
            }
            i = i + 1;
        }
        let mut i: usize = 0;
        while i < names.len()
            invariant
                i <= names.len(),
                nv == views(names@),
                nv == candidate_names(*self, key@, *entity),
                inline == inline_for(*self, key@),
                string_views(inline_adjectives@) == inline,
                forall|k: int| 0 <= k < names.len() ==> !phrase_matches(clean_desc@, #[trigger] nv[k], *entity, inline, self.strict_diacritics),
                forall|k: int| 0 <= k < i ==> !ordinals_match(*self, #[trigger] nv[k], key@, clean_desc@, *entity, inline),
            decreases names.len() - i,
        {
            if self.check_ordinals(&names[i], key, clean_desc, entity, inline_adjectives) {
                assert(ordinals_match(*self, nv[i as int], key@, clean_desc@, *entity, inline));
                return true;
            }
            i = i + 1;
        }
        false
    }
}

// ---------------------------------------------------------------------------
// Candidate entities for a description
// ---------------------------------------------------------------------------

/// The remembered entities, oldest first, whose key the context resolves and that the
/// cleaned description names.
pub open spec fn recent_name_targets(ctx: RenderContext, rs: Seq<RecentModel>, desc: Seq<char>) -> Seq<(Seq<char>, TemplateEntity)>
    decreases rs.len(),
{
    if rs.len() == 0 {
        seq![]
    } else {
        let prev = recent_name_targets(ctx, rs.drop_last(), desc);
        let r = rs.last();
        match entity_for(ctx, r.key) {
            Some(e) => if name_matches(ctx, r.key, e, desc) { prev.push((r.key, e)) } else { prev },
            None => prev,
        }
    }
}

/// The entities of the entity table, in table order, that the cleaned description names.
pub open spec fn table_name_targets(ctx: RenderContext, es: Seq<(String, &TemplateEntity)>, desc: Seq<char>) -> Seq<(Seq<char>, TemplateEntity)>
    decreases es.len(),
{
    if es.len() == 0 {
        seq![]
    } else {
        let prev = table_name_targets(ctx, es.drop_last(), desc);
        let (k, e) = es.last();
        if name_matches(ctx, k@, *e, desc) { prev.push((k@, *e)) } else { prev }
    }
}

/// The entities that a description names: articles are stripped, remembered entities are
/// searched first, and the entity table only when none of them matches.
pub open spec fn name_targets(ctx: RenderContext, desc: Seq<char>) -> Seq<(Seq<char>, TemplateEntity)> {
    let clean = stripped(desc);
    let recent = recent_name_targets(ctx, recent_views(ctx.recent_entities@), clean);
    if recent.len() > 0 {
        recent
    } else {
        table_name_targets(ctx, ctx.entities@, clean)
    }
}

/// The entities that a description refers to: by pronoun when it is one, else by name.
pub open spec fn base_targets(ctx: RenderContext, desc: Seq<char>) -> Seq<(Seq<char>, TemplateEntity)> {
    if is_pronoun(desc) {
        pronoun_targets(ctx, recent_views(ctx.recent_entities@), desc)
    } else {
        name_targets(ctx, desc)
    }
}

impl<'a> RenderContext<'a> {
    /// The entities that a description names (see `name_targets`).
    pub fn resolve_name_targets(&self, base_desc: &Vec<char>) -> (r: Vec<(String, &'a TemplateEntity)>)
        ensures
            found_views(r@) == name_targets(*self, base_desc@),
    {
        let clean_desc = strip_articles(base_desc);
        let ghost rs = recent_views(self.recent_entities@);
        let mut name_matches: Vec<(String, &'a TemplateEntity)> = Vec::new();
        let mut i: usize = 0;
        assert(rs.take(0) =~= Seq::<RecentModel>::empty());
        while i < self.recent_entities.len()
            invariant
                i <= self.recent_entities.len(),
                rs == recent_views(self.recent_entities@),
                found_views(name_matches@) == recent_name_targets(*self, rs.take(i as int), clean_desc@),
            decreases self.recent_entities.len() - i,
        {
            let recent = &self.recent_entities[i];
            assert(rs.take(i + 1).drop_last() =~= rs.take(i as int));
            assert(rs.take(i + 1).last() == recent@);
            match self.get_entity(recent.key.as_str()) {
                Some(entity) => {
                    if self.entity_matches_name(recent.key.as_str(), entity, &clean_desc) {
                        let ghost before = found_views(name_matches@);
                        name_matches.push((recent.key.clone(), entity));
                        assert(found_views(name_matches@) =~= before.push((recent@.key, *entity)));
                    }
                },
                None => {},
            }
            i = i + 1;
        }
        assert(rs.take(i as int) =~= rs);
        if name_matches.len() == 0 {
            let ghost es = self.entities@;
            let mut j: usize = 0;
            assert(es.take(0) =~= Seq::<(String, &TemplateEntity)>::empty());
            while j < self.entities.len()
                invariant
                    j <= self.entities.len(),
                    es == self.entities@,
                    found_views(name_matches@) == table_name_targets(*self, es.take(j as int), clean_desc@),
                decreases self.entities.len() - j,
            {
                let key = &self.entities[j].0;
                let entity = self.entities[j].1;
                assert(es.take(j + 1).drop_last() =~= es.take(j as int));
                assert(es.take(j + 1).last() == es[j as int]);
                if self.entity_matches_name(key.as_str(), entity, &clean_desc) {
                    let ghost before = found_views(name_matches@);
                    name_matches.push((key.clone(), entity));
                    assert(found_views(name_matches@) =~= before.push((key@, *entity)));
                }
                j = j + 1;
            }
            assert(es.take(j as int) =~= es);
        }
        name_matches
    }

    /// The entities that a description refers to, by pronoun or by name (see `base_targets`).
    fn resolve_base_targets(&self, desc: &Vec<char>) -> (r: Vec<(String, &'a TemplateEntity)>)
        ensures
            found_views(r@) == base_targets(*self, desc@),
    {
        match self.resolve_pronoun_targets(desc) {
            Some(v) => v,
            None => self.resolve_name_targets(desc),
        }
    }
}

// ---------------------------------------------------------------------------
// Parsing a description ("his sword's hilt")
// ---------------------------------------------------------------------------

/// A description lower-cased, with typographic apostrophes made plain, trimmed, and without
/// trailing punctuation.
pub open spec fn normalized(desc: Seq<char>) -> Seq<char> {
    trim_end_punct(trim(replace_char(unicode_lowercase(desc), '\u{2019}', '\'')))
}

/// The possessive pronouns that can open a description, with their trailing space.
pub open spec fn possessive_prefixes() -> Seq<Seq<char>> {
    seq!["his "@, "her "@, "its "@, "their "@, "your "@, "my "@, "our "@]
}

/// The first of the prefixes `ps` that `s` begins with.
pub open spec fn first_prefix(s: Seq<char>, ps: Seq<Seq<char>>) -> Option<Seq<char>>
    decreases ps.len(),
{
    if ps.len() == 0 {
        None
    } else if starts_with(s, ps[0]) {
        Some(ps[0])
    } else {
        first_prefix(s, ps.drop_first())
    }
}

/// The position of the first occurrence of a possessive marker, when it is not preceded by
/// a space ("Aldran 's" is no possessive).
pub open spec fn marker_at(text: Seq<char>, m: Seq<char>) -> Option<int> {
    match find(text, m) {
        Some(i) => if i == 0 || text[i - 1] != ' ' { Some(i) } else { None },
        None => None,
    }
}

/// The next owner of a possessive chain: the text before the first marker ("'s ", then
/// "s' ", then "' "), how far to advance past it, and whether the owner ends in an
/// apostrophized plural "s"; the whole text when there is no marker.
pub open spec fn owner_step(text: Seq<char>) -> (Seq<char>, int, bool) {
    match marker_at(text, "'s "@) {
        Some(i) => (text.take(i), i + "'s "@.len(), false),
        None => match marker_at(text, "s' "@) {
            Some(i) => (text.take(i), i + "s' "@.len(), true),
            None => match marker_at(text, "' "@) {
                Some(i) => (text.take(i), i + "' "@.len(), false),
                None => (text, text.len() as int, false),
            },
        },
    }
}

/// Trimming never lengthens a text.
pub proof fn lemma_trim_len(s: Seq<char>)
    ensures
        trim(s).len() <= s.len(),
{
    lemma_trim_start_len(s);
    lemma_trim_end_len(crate::text::trim_start(s));
}

/// Trimming the start never lengthens a text.
pub proof fn lemma_trim_start_len(s: Seq<char>)
    ensures
        trim_start(s).len() <= s.len(),
    decreases s.len(),
{
    if s.len() > 0 && is_white(s[0]) {
        lemma_trim_start_len(s.drop_first());
    }
}

/// Trimming the end never lengthens a text.
pub proof fn lemma_trim_end_len(s: Seq<char>)
    ensures
        trim_end(s).len() <= s.len(),
    decreases s.len(),
{
    if s.len() > 0 && is_white(s.last()) {
        lemma_trim_end_len(s.drop_last());
    }
}

/// Walks a possessive chain: the first owner becomes the base, every later one a segment of
/// the dot-separated path ("aldran's sword's hilt" -> "aldran", "sword.hilt").
pub open spec fn parse_owners(text: Seq<char>, base: Seq<char>, path: Seq<char>) -> (Seq<char>, Seq<char>)
    decreases text.len(),
{
    if text.len() == 0 {
        (base, path)
    } else {
        let (owner, adv, add_s) = owner_step(text);
        let piece = if add_s { owner.push('s') } else { owner };
        let base2 = if base.len() == 0 { piece } else { base };
        let path2 = if base.len() == 0 {
            path
        } else if path.len() == 0 {
            piece
        } else {
            path.push('.') + piece
        };
        if 0 < adv <= text.len() {
            proof {
                lemma_trim_len(text.skip(adv));
            }
            parse_owners(trim(text.skip(adv)), base2, path2)
        } else {
            (base2, path2)
        }
    }
}

/// A description split into the entity it names and the path of the sub-element it asks
/// for, if any ("Aldran's sword" -> ("aldran", Some("sword"))).
pub open spec fn parsed_description(desc: Seq<char>) -> (Seq<char>, Option<Seq<char>>) {
    let t = normalized(desc);
    let (base, rest) = match first_prefix(t, possessive_prefixes()) {
        Some(p) => (trim(p), trim(t.skip(p.len() as int))),
        None => (seq![], t),
    };
    let (b, p) = parse_owners(rest, base, seq![]);
    (b, if p.len() == 0 { None } else { Some(p) })
}

proof fn lemma_first_prefix(s: Seq<char>, ps: Seq<Seq<char>>)
    ensures
        match first_prefix(s, ps) {
            Some(p) => starts_with(s, p),
            None => true,
        },
    decreases ps.len(),
{
    if ps.len() > 0 && !starts_with(s, ps[0]) {
        lemma_first_prefix(s, ps.drop_first());
    }
}

/// Lower-cases a description, makes typographic apostrophes plain, trims it and drops
/// trailing punctuation.
pub fn normalize_description(desc: &str) -> (r: Vec<char>)
    ensures
        r@ == normalized(desc@),
{
    let lower = chars_of(str_to_lowercase(desc).as_str());
    let replaced = chars_replace(&lower, '\u{2019}', '\'');
    chars_trim_end_punct(&chars_trim(&replaced))
}

/// The text before the first possessive marker `m` and the position just past the marker
/// (see `marker_at`).
fn owner_before_marker(text: &Vec<char>, m: &Vec<char>) -> (r: Option<(Vec<char>, usize)>)
    ensures
        match r {
            Some((owner, adv)) => marker_at(text@, m@) matches Some(i) && 0 <= i && owner@ == text@.take(i)
                && adv == i + m@.len() && adv <= text@.len(),
            None => marker_at(text@, m@) is None,
        },
{
    match chars_find_from(text, m, 0) {
        Some(i) => {
            proof {
                lemma_find_bounds(text@, m@, 0);
            }
            if i == 0 || text[i - 1] != ' ' {
                let owner = subrange_of(text, 0, i);
                assert(owner@ =~= text@.take(i as int));
                Some((owner, i + m.len()))
            } else {
                None
            }
        },
        None => None,
    }
}

/// The next owner of a possessive chain (see `owner_step`).
fn owner_step_exec(text: &Vec<char>) -> (r: (Vec<char>, usize, bool))
    requires
        text@.len() > 0,
    ensures
        (r.0@, r.1 as int, r.2) == owner_step(text@),
        0 < r.1 <= text@.len(),
{
    proof {
        reveal_strlit("'s ");
        reveal_strlit("s' ");
        reveal_strlit("' ");
    }
    let m1 = chars_of("'s ");
    let m2 = chars_of("s' ");
    let m3 = chars_of("' ");
    assert(m1@.len() > 0 && m2@.len() > 0 && m3@.len() > 0);
    match owner_before_marker(text, &m1) {
        Some((owner, adv)) => {
            return (owner, adv, false);
        },
        None => {},
    }
    match owner_before_marker(text, &m2) {
        Some((owner, adv)) => {
            return (owner, adv, true);
        },
        None => {},
    }
    match owner_before_marker(text, &m3) {
        Some((owner, adv)) => {
            return (owner, adv, false);
        },
        None => {},
    }
    (text.clone(), text.len(), false)
}

/// The position of the first possessive pronoun prefix that the text begins with.
fn first_prefix_at(text: &Vec<char>, prefixes: &Vec<Vec<char>>) -> (r: Option<usize>)
    requires
        views(prefixes@) == possessive_prefixes(),
    ensures
        match r {
            Some(k) => k < prefixes@.len() && first_prefix(text@, possessive_prefixes()) == Some(prefixes@[k as int]@)
                && starts_with(text@, prefixes@[k as int]@),
            None => first_prefix(text@, possessive_prefixes()) is None,
        },
{
    let ghost ps = possessive_prefixes();
    let mut i: usize = 0;
    assert(ps.skip(0) =~= ps);
    while i < prefixes.len()
        invariant
            i <= prefixes.len(),
            views(prefixes@) == ps,
            ps == possessive_prefixes(),
            first_prefix(text@, ps) == first_prefix(text@, ps.skip(i as int)),
        decreases prefixes.len() - i,
    {
        assert(ps.skip(i as int).drop_first() =~= ps.skip(i + 1));
        assert(ps.skip(i as int)[0] == prefixes@[i as int]@);
        if chars_starts_with(text, &prefixes[i]) {
            return Some(i);
        }
        i = i + 1;
    }
    assert(ps.skip(i as int) =~= Seq::<Seq<char>>::empty());
    None
}

/// Splits a description into the entity it names and the dot-separated path of the
/// sub-element it asks for (see `parsed_description`).
pub fn parse_target_description(desc: &str) -> (r: (String, Option<String>))
    ensures
        (r.0@, crate::models::opt_view(r.1)) == parsed_description(desc@),
{
    let mut text = normalize_description(desc);
    let ghost t = text@;
    let mut base: Vec<char> = Vec::new();
    let mut path: Vec<char> = Vec::new();
    let prefixes = vec![
        chars_of("his "), chars_of("her "), chars_of("its "), chars_of("their "), chars_of("your "),
        chars_of("my "), chars_of("our "),
    ];
    assert(views(prefixes@) =~= possessive_prefixes());
    match first_prefix_at(&text, &prefixes) {
        Some(k) => {
            base = chars_trim(&prefixes[k]);
            let rest = subrange_of(&text, prefixes[k].len(), text.len());
            assert(rest@ =~= t.skip(prefixes@[k as int]@.len() as int));
            text = chars_trim(&rest);
        },
        None => {},
    }
    let ghost b0 = base@;
    let ghost r0 = text@;
    while text.len() > 0
        invariant
            parse_owners(text@, base@, path@) == parse_owners(r0, b0, seq![]),
        decreases text.len(),
    {
        let (owner, advance, add_s) = owner_step_exec(&text);
        let mut piece = owner;
        if add_s {
            piece.push('s');
        }
        if base.len() == 0 {
            append_chars(&mut base, &piece);
        } else {
            if path.len() > 0 {
                path.push('.');
            }
            append_chars(&mut path, &piece);
        }
        let rest = subrange_of(&text, advance, text.len());
        assert(rest@ =~= text@.skip(advance as int));
        proof {
            lemma_trim_len(rest@);
        }
        text = chars_trim(&rest);
    }
    let path_opt = if path.len() == 0 {
        None
    } else {
        Some(string_of(&path))
    };
    (string_of(&base), path_opt)
}

// ---------------------------------------------------------------------------
// Resolving a description
// ---------------------------------------------------------------------------

/// Whether a path match belongs to a base match: its key extends the base key
/// ("source" -> "source.weapon"), or the ordinals recorded under "<base key>::<name>"
/// count it.
pub open spec fn is_sub_element(ctx: RenderContext, base_key: Seq<char>, path_key: Seq<char>, path_entity: TemplateEntity) -> bool {
    ||| starts_with(path_key, base_key.push('.'))
    ||| match lookup(ctx.ordinals@, base_key + "::"@ + name_spec(path_entity, ctx.viewer_id@)) {
        Some(state) => lookup(state.members@, path_key) is Some,
        None => false,
    }
}

/// The path matches that belong to a base key, in order.
pub open spec fn deep_for(ctx: RenderContext, base_key: Seq<char>, pms: Seq<(Seq<char>, TemplateEntity)>) -> Seq<(Seq<char>, TemplateEntity)>
    decreases pms.len(),
{
    if pms.len() == 0 {
        seq![]
    } else {
        let prev = deep_for(ctx, base_key, pms.drop_last());
        let pm = pms.last();
        if is_sub_element(ctx, base_key, pm.0, pm.1) { prev.push(pm) } else { prev }
    }
}

/// The path matches that belong to each base match, base by base.
pub open spec fn deep_all(ctx: RenderContext, bases: Seq<(Seq<char>, TemplateEntity)>, pms: Seq<(Seq<char>, TemplateEntity)>) -> Seq<(Seq<char>, TemplateEntity)>
    decreases bases.len(),
{
    if bases.len() == 0 {
        seq![]
    } else {
        deep_all(ctx, bases.drop_last(), pms) + deep_for(ctx, bases.last().0, pms)
    }
}

/// The base matches that no path match belongs to.
pub open spec fn fallback_all(ctx: RenderContext, bases: Seq<(Seq<char>, TemplateEntity)>, pms: Seq<(Seq<char>, TemplateEntity)>) -> Seq<(Seq<char>, TemplateEntity)>
    decreases bases.len(),
{
    if bases.len() == 0 {
        seq![]
    } else {
        let prev = fallback_all(ctx, bases.drop_last(), pms);
        if deep_for(ctx, bases.last().0, pms).len() == 0 { prev.push(bases.last()) } else { prev }
    }
}

/// The matches with a path attached.
pub open spec fn with_path(v: Seq<(Seq<char>, TemplateEntity)>, p: Option<Seq<char>>) -> Seq<(Seq<char>, TemplateEntity, Option<Seq<char>>)> {
    v.map_values(|x: (Seq<char>, TemplateEntity)| (x.0, x.1, p))
}

/// Every candidate for a description, in order: what the whole description names; then,
/// for a possessive description, the sub-elements found for each base entity, and the
/// base entities for which none was found, with the requested path.
pub open spec fn candidates(ctx: RenderContext, desc: Seq<char>) -> Seq<(Seq<char>, TemplateEntity, Option<Seq<char>>)> {
    let (base, sub) = parsed_description(desc);
    let raw = base_targets(ctx, normalized(desc));
    match sub {
        Some(path) => {
            let bases = base_targets(ctx, base);
            let pms = name_targets(ctx, path);
            with_path(raw, None) + with_path(deep_all(ctx, bases, pms), None) + with_path(
                fallback_all(ctx, bases, pms),
                Some(path),
            )
        },
        None => with_path(raw, None),
    }
}

/// What a match reports: its key, entity and path, and whether the path could not be
/// followed through the entity's properties.
pub open spec fn match_model(c: (Seq<char>, TemplateEntity, Option<Seq<char>>)) -> (Seq<char>, TemplateEntity, Option<Seq<char>>, bool) {
    (c.0, c.1, c.2, match c.2 {
        Some(p) => path_target(c.1, split_on(p, '.')) is None,
        None => false,
    })
}

/// Whether one of the matches concerns the entity with the id.
pub open spec fn has_entity(ms: Seq<(Seq<char>, TemplateEntity, Option<Seq<char>>, bool)>, id: Seq<char>) -> bool {
    exists|j: int| 0 <= j < ms.len() && (#[trigger] ms[j]).1.id@ == id
}

/// The candidates reported, keeping only the first candidate of each entity.
pub open spec fn unique_models(cs: Seq<(Seq<char>, TemplateEntity, Option<Seq<char>>)>) -> Seq<(Seq<char>, TemplateEntity, Option<Seq<char>>, bool)>
    decreases cs.len(),
{
    if cs.len() == 0 {
        seq![]
    } else {
        let prev = unique_models(cs.drop_last());
        let c = cs.last();
        if has_entity(prev, c.1.id@) { prev } else { prev.push(match_model(c)) }
    }
}

/// The matches for a description.
pub open spec fn target_matches(ctx: RenderContext, desc: Seq<char>) -> Seq<(Seq<char>, TemplateEntity, Option<Seq<char>>, bool)> {
    unique_models(candidates(ctx, desc))
}

/// The models of a list of target matches.
pub open spec fn match_views<'a>(v: Seq<TargetMatch<'a>>) -> Seq<(Seq<char>, TemplateEntity, Option<Seq<char>>, bool)> {
    v.map_values(|m: TargetMatch<'a>| (m.key@, *m.entity, opt_view(m.path), m.path_uncertain))
}

/// The matches whose path is certain.
pub open spec fn certain_only(ms: Seq<(Seq<char>, TemplateEntity, Option<Seq<char>>, bool)>) -> Seq<(Seq<char>, TemplateEntity, Option<Seq<char>>, bool)>
    decreases ms.len(),
{
    if ms.len() == 0 {
        seq![]
    } else {
        let prev = certain_only(ms.drop_last());
        if ms.last().3 { prev } else { prev.push(ms.last()) }
    }
}

/// Adds a candidate to the matches unless one of them already concerns its entity.
fn push_unique<'a>(unique: &mut Vec<TargetMatch<'a>>, key: &String, entity: &'a TemplateEntity, path: &Option<String>)
    ensures
        match_views(final(unique)@) == if has_entity(match_views(old(unique)@), entity.id@) {
            match_views(old(unique)@)
        } else {
            match_views(old(unique)@).push(match_model((key@, *entity, opt_view(*path))))
        },
{
    let ghost before = match_views(unique@);
    let mut i: usize = 0;
    while i < unique.len()
        invariant
            i <= unique.len(),
            before == match_views(unique@),
            forall|j: int| 0 <= j < i ==> before[j].1.id@ != entity.id@,
        decreases unique.len() - i,
    {
        if is_same_entity(unique[i].entity, entity) {
            assert(before[i as int].1.id@ == entity.id@);
            return;
        }
        i = i + 1;
    }
    let (p, path_uncertain) = match path {
        Some(p) => (Some(p.clone()), resolve_entity_path(entity, p.as_str()).is_none()),
        None => (None, false),
    };
    unique.push(TargetMatch { key: key.clone(), entity, path: p, path_uncertain });
    assert(match_views(unique@) =~= before.push(match_model((key@, *entity, opt_view(*path)))));
}

impl<'a> RenderContext<'a> {
    /// Whether the path match belongs to the base key (see `is_sub_element`).
    fn is_sub_element_exec(&self, base_key: &String, path_key: &String, path_entity: &TemplateEntity) -> (r: bool)
        ensures
            r == is_sub_element(*self, base_key@, path_key@, *path_entity),
    {
        let mut prefix = chars_of(base_key.as_str());
        prefix.push('.');
        if chars_starts_with(&chars_of(path_key.as_str()), &prefix) {
            return true;
        }
        let mut ns_key = chars_of(base_key.as_str());
        append_str(&mut ns_key, "::");
        append_str(&mut ns_key, path_entity.display_name_for(self.viewer_id).as_str());
        let ns = string_of(&ns_key);
        match find_key(&self.ordinals, ns.as_str()) {
            Some(i) => find_key(&self.ordinals[i].1.members, path_key.as_str()).is_some(),
            None => false,
        }
    }

    /// Resolves what a player typed ("him", "the fourth wolf", "Aldran's sword") to the
    /// entities of the context.
    ///
    /// Several matches mean the description is ambiguous. A description that asks for a
    /// sub-element ("his sword") gives the owner with the path ("sword") when the sub-element
    /// is not itself a known entity; `path_uncertain` tells whether the owner's properties
    /// could not confirm the path. Each entity is reported once.
    pub fn resolve_target(&self, description: &str) -> (r: Vec<TargetMatch<'a>>)
        ensures
            match_views(r@) == target_matches(*self, description@),
    {
        let (base_desc, sub_element_desc) = parse_target_description(description);
        let clean_full_desc = normalize_description(description);
        let raw_matches = self.resolve_base_targets(&clean_full_desc);
        let mut deep_matches: Vec<(String, &'a TemplateEntity)> = Vec::new();
        let mut fallback_matches: Vec<(String, &'a TemplateEntity)> = Vec::new();
        let ghost cands = candidates(*self, description@);
        match &sub_element_desc {
            Some(path) => {
                let base_matches = self.resolve_base_targets(&chars_of(base_desc.as_str()));
                let path_chars = chars_of(path.as_str());
                let ghost bases = found_views(base_matches@);
                let ghost pms = name_targets(*self, path@);
                let mut i: usize = 0;
                assert(bases.take(0) =~= Seq::<(Seq<char>, TemplateEntity)>::empty());
                while i < base_matches.len()
                    invariant
                        i <= base_matches.len(),
                        bases == found_views(base_matches@),
                        path_chars@ == path@,
                        pms == name_targets(*self, path@),
                        found_views(deep_matches@) == deep_all(*self, bases.take(i as int), pms),
                        found_views(fallback_matches@) == fallback_all(*self, bases.take(i as int), pms),
                    decreases base_matches.len() - i,
                {
                    let base_key = &base_matches[i].0;
                    let base_entity = base_matches[i].1;
                    let path_matches = self.resolve_name_targets(&path_chars);
                    let ghost pv = found_views(path_matches@);
                    let ghost deep_before = found_views(deep_matches@);
                    let mut found_deep = false;
                    let mut j: usize = 0;
                    assert(pv.take(0) =~= Seq::<(Seq<char>, TemplateEntity)>::empty());
                    assert(deep_before =~= deep_before + deep_for(*self, base_key@, pv.take(0)));
                    while j < path_matches.len()
                        invariant
                            j <= path_matches.len(),
                            pv == found_views(path_matches@),
                            found_views(deep_matches@) == deep_before + deep_for(*self, base_key@, pv.take(j as int)),
                            found_deep == (deep_for(*self, base_key@, pv.take(j as int)).len() > 0),
                        decreases path_matches.len() - j,
                    {
                        let path_key = &path_matches[j].0;
                        let path_entity = path_matches[j].1;
                        assert(pv.take(j + 1).drop_last() =~= pv.take(j as int));
                        assert(pv.take(j + 1).last() == (path_key@, *path_entity));
                        if self.is_sub_element_exec(base_key, path_key, path_entity) {
                            let ghost before = found_views(deep_matches@);
                            deep_matches.push((path_key.clone(), path_entity));
                            assert(found_views(deep_matches@) =~= before.push((path_key@, *path_entity)));
                            found_deep = true;
                        }
                        j = j + 1;
                    }
                    assert(pv.take(j as int) =~= pv);
                    assert(bases.take(i + 1).drop_last() =~= bases.take(i as int));
                    assert(bases.take(i + 1).last() == (base_key@, *base_entity));
                    if !found_deep {
                        let ghost before = found_views(fallback_matches@);
                        fallback_matches.push((base_key.clone(), base_entity));
                        assert(found_views(fallback_matches@) =~= before.push((base_key@, *base_entity)));
                    }
                    i = i + 1;
                }
                assert(bases.take(i as int) =~= bases);
            },
            None => {},
        }
        let mut unique: Vec<TargetMatch<'a>> = Vec::new();
        let ghost raw = with_path(found_views(raw_matches@), None);
        let ghost deep = with_path(found_views(deep_matches@), None);
        let ghost fallback = with_path(found_views(fallback_matches@), opt_view(sub_element_desc));
        assert(cands =~= raw + deep + fallback);
        let no_path: Option<String> = None;
        let mut i: usize = 0;
        assert(cands.take(0) =~= Seq::<(Seq<char>, TemplateEntity, Option<Seq<char>>)>::empty());
        while i < raw_matches.len()
            invariant
                i <= raw_matches.len(),
                raw == with_path(found_views(raw_matches@), None),
                cands == raw + deep + fallback,
                no_path is None,
                match_views(unique@) == unique_models(cands.take(i as int)),
            decreases raw_matches.len() - i,
        {
            assert(cands.take(i + 1).drop_last() =~= cands.take(i as int));
            assert(cands.take(i + 1).last() == (raw_matches@[i as int].0@, *raw_matches@[i as int].1, opt_view(no_path)));
            push_unique(&mut unique, &raw_matches[i].0, raw_matches[i].1, &no_path);
            i = i + 1;
        }
        let mut i: usize = 0;
        while i < deep_matches.len()
            invariant
                i <= deep_matches.len(),
                raw.len() == raw_matches.len(),
                deep == with_path(found_views(deep_matches@), None),
                cands == raw + deep + fallback,
                no_path is None,
                match_views(unique@) == unique_models(cands.take(raw.len() + i)),
            decreases deep_matches.len() - i,
        {
            let ghost n = raw.len() + i;
            assert(cands.take(n + 1).drop_last() =~= cands.take(n));
            assert(cands.take(n + 1).last() == (deep_matches@[i as int].0@, *deep_matches@[i as int].1, opt_view(no_path)));
            push_unique(&mut unique, &deep_matches[i].0, deep_matches[i].1, &no_path);
            i = i + 1;
        }
        let mut i: usize = 0;
        while i < fallback_matches.len()
            invariant
                i <= fallback_matches.len(),
                raw.len() == raw_matches.len(),
                deep.len() == deep_matches.len(),
                fallback == with_path(found_views(fallback_matches@), opt_view(sub_element_desc)),
                cands == raw + deep + fallback,
                match_views(unique@) == unique_models(cands.take(raw.len() + deep.len() + i)),
            decreases fallback_matches.len() - i,
        {
            let ghost n = raw.len() + deep.len() + i;
            assert(cands.take(n + 1).drop_last() =~= cands.take(n));
            assert(cands.take(n + 1).last() == (fallback_matches@[i as int].0@, *fallback_matches@[i as int].1, opt_view(sub_element_desc)));
            push_unique(&mut unique, &fallback_matches[i].0, fallback_matches[i].1, &sub_element_desc);
            i = i + 1;
        }
        assert(cands.take(cands.len() as int) =~= cands);
        unique
    }

    /// Resolves a description like `resolve_target`, keeping only the matches whose
    /// sub-element path is certain.
    pub fn resolve_target_strict(&self, description: &str) -> (r: Vec<TargetMatch<'a>>)
        ensures
            match_views(r@) == certain_only(target_matches(*self, description@)),
    {
        let all = self.resolve_target(description);
        let ghost mv = match_views(all@);
        let mut kept: Vec<TargetMatch<'a>> = Vec::new();
        let mut i: usize = 0;
        assert(mv.take(0) =~= Seq::<(Seq<char>, TemplateEntity, Option<Seq<char>>, bool)>::empty());
        while i < all.len()
            invariant
                i <= all.len(),
                mv == match_views(all@),
                mv == target_matches(*self, description@),
                match_views(kept@) == certain_only(mv.take(i as int)),
            decreases all.len() - i,
        {
            let m = &all[i];
            assert(mv.take(i + 1).drop_last() =~= mv.take(i as int));
            assert(mv.take(i + 1).last() == mv[i as int]);
            if !m.path_uncertain {
                let ghost before = match_views(kept@);
                kept.push(TargetMatch {
                    key: m.key.clone(),
                    entity: m.entity,
                    path: clone_opt_string(&m.path),
                    path_uncertain: false,
                });
                assert(match_views(kept@) =~= before.push(mv[i as int]));
            }
            i = i + 1;
        }
        assert(mv.take(i as int) =~= mv);
        kept
    }
}

} // verus!
