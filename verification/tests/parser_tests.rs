use mud_perspective::parser::{
    consume_control_tag, consume_until_closed, extract_variable_fallback, find_spaced_marker,
    find_spaced_possessive, is_all_caps, is_article, is_capitalized, is_escapable_char,
    is_indefinite_article, is_p_type, parse_forced_conjugations, parse_possessive_suffix,
    parse_stance_prefixes, reject_if, split_tag, strip_outer_quotes, unescape_string,
    validate_property_segments, validation_error, TagFlags, TagSegment,
};
use mud_perspective::tags::{parse_entity, parse_variable, parse_verb, TagToken};
use mud_perspective::template::Token;
use mud_perspective::template_keys::extract_keys;

fn indexed(s: &str) -> Vec<(usize, char)> {
    s.char_indices().collect()
}

#[test]
fn stance_prefixes_set_their_flags() {
    let (rest, flags) = parse_stance_prefixes(" + ! source");
    assert_eq!(rest, "source");
    assert!(flags.force_3rd_person);
    assert!(flags.no_smart);
    assert!(!flags.force_singular);

    let (rest, flags) = parse_stance_prefixes("-*~^@target");
    assert_eq!(rest, "target");
    assert!(flags.force_singular && flags.prefer_noun && flags.allow_ambiguous_you);
    assert!(flags.extract_group_member && flags.drop_possessive);

    let (rest, flags) = parse_stance_prefixes("plain");
    assert_eq!(rest, "plain");
    assert!(!flags.force_3rd_person && !flags.no_smart);
}

#[test]
fn validation_messages_name_the_tag() {
    assert_eq!(validation_error("Malformed entity tag", "a:b", '{'), "Malformed entity tag: {a:b}");
    assert_eq!(validation_error("Malformed verb tag", "a:b:c", '['), "Malformed verb tag: [a:b:c]");
    assert_eq!(reject_if(false, "msg", "x", '{'), Ok(()));
    assert_eq!(reject_if(true, "msg", "x", '['), Err("msg: [x]".to_string()));
}

#[test]
fn property_segments_must_not_be_empty() {
    assert_eq!(validate_property_segments("source.weapon", "bad", "c", '{'), Ok(()));
    assert_eq!(validate_property_segments("source..weapon", "bad", "c", '{'), Err("bad: {c}".to_string()));
    assert_eq!(validate_property_segments(".weapon", "bad", "c", '['), Err("bad: [c]".to_string()));
}

#[test]
fn forced_conjugations_are_read_and_checked() {
    assert_eq!(
        parse_forced_conjugations("is | are ; was", "c"),
        Ok((Some(vec!["is".to_string(), "are".to_string()]), Some(vec!["was".to_string()])))
    );
    assert_eq!(parse_forced_conjugations(";went", "c"), Ok((None, Some(vec!["went".to_string()]))));
    assert_eq!(
        parse_forced_conjugations("a|b|c|d", "c"),
        Err("Verb tag has too many forced present conjugation segments: [c]".to_string())
    );
    assert_eq!(
        parse_forced_conjugations("a||b", "c"),
        Err("Verb tag has an empty forced present conjugation segment: [c]".to_string())
    );
    assert_eq!(
        parse_forced_conjugations("goes;", "c"),
        Err("Verb tag has an empty forced past conjugation segment: [c]".to_string())
    );
    assert_eq!(
        parse_forced_conjugations("goes;a|b|c|d", "c"),
        Err("Verb tag has too many forced past conjugation segments: [c]".to_string())
    );
}

#[test]
fn tags_split_in_at_most_two_parts() {
    assert_eq!(split_tag(" source : walk ", '[', "Malformed verb tag"), Ok(("source".to_string(), Some("walk".to_string()))));
    assert_eq!(split_tag("walk", '[', "Malformed verb tag"), Ok(("walk".to_string(), None)));
    assert_eq!(split_tag("a:b:c", '[', "Malformed verb tag"), Err("Malformed verb tag: [a:b:c]".to_string()));
}

#[test]
fn pronoun_types_and_articles_are_recognised() {
    assert!(is_p_type("obj"));
    assert!(is_p_type(" +Reflex "));
    assert!(!is_p_type("object"));
    assert!(is_article("The"));
    assert!(is_article("one of the"));
    assert!(!is_article("thee"));
    assert!(is_indefinite_article("AN"));
    assert!(!is_indefinite_article("the"));
    assert!(is_escapable_char('{') && is_escapable_char('\\') && !is_escapable_char('a'));
}

#[test]
fn capitals_are_detected() {
    assert!(is_capitalized("Source"));
    assert!(is_capitalized("\u{c9}lan"));
    assert!(!is_capitalized("source"));
    assert!(!is_capitalized(""));
    assert!(is_all_caps("SOURCE'S"));
    assert!(is_all_caps("\u{c9}COLE"));
    assert!(!is_all_caps("Source"));
    assert!(!is_all_caps("123"));
}

#[test]
fn escapes_are_resolved() {
    assert_eq!(unescape_string("a\\nb\\tc"), "a\nb\tc");
    assert_eq!(unescape_string("\\u{263A}!"), "\u{263A}!");
    assert_eq!(unescape_string("\\u{zz}"), "\u{FFFD}");
    assert_eq!(unescape_string("\\u{D800}"), "\u{FFFD}");
    assert_eq!(unescape_string("\\ux"), "ux");
    assert_eq!(unescape_string("\\\"quoted\\\""), "\"quoted\"");
    assert_eq!(unescape_string("plain text"), "plain text");
}

#[test]
fn quotes_and_fallbacks_are_read() {
    assert_eq!(strip_outer_quotes(" 'sunny' "), "sunny");
    assert_eq!(strip_outer_quotes("\"mixed'"), "\"mixed'");
    assert_eq!(strip_outer_quotes("'"), "'");
    assert_eq!(extract_variable_fallback("weather ?? \"clear\""), ("weather".to_string(), Some("clear".to_string())));
    assert_eq!(extract_variable_fallback(" weather "), ("weather".to_string(), None));
}

#[test]
fn segments_are_literals_or_variables() {
    assert_eq!(TagSegment::parse(" the "), TagSegment::Literal("the".to_string()));
    assert_eq!(
        TagSegment::parse("$Weather ?? 'sunny'"),
        TagSegment::Variable { key: "weather".to_string(), fallback: Some("sunny".to_string()) }
    );
    assert_eq!(TagSegment::parse("$ Mood "), TagSegment::Variable { key: "mood".to_string(), fallback: None });
}

#[test]
fn possessive_suffixes_are_removed() {
    assert_eq!(parse_possessive_suffix("source's"), ("source".to_string(), true));
    assert_eq!(parse_possessive_suffix("SOURCE'S"), ("SOURCE".to_string(), true));
    assert_eq!(parse_possessive_suffix("bosses'"), ("bosses".to_string(), true));
    assert_eq!(parse_possessive_suffix("source\u{2019}s"), ("source".to_string(), true));
    assert_eq!(parse_possessive_suffix("source"), ("source".to_string(), false));
}

#[test]
fn spaced_possessives_are_found_in_bytes_and_characters() {
    assert_eq!(find_spaced_possessive("bob's sword"), Some((3, 3)));
    assert_eq!(find_spaced_possessive("bob\u{2019}s sword"), Some((3, 5)));
    assert_eq!(find_spaced_possessive("\u{e9}lan\u{2019} sword"), Some((5, 4)));
    assert_eq!(find_spaced_possessive("the guards' captain"), Some((10, 2)));
    assert_eq!(find_spaced_possessive("sword"), None);
    let chars: Vec<char> = "\u{e9}lan\u{2019} sword".chars().collect();
    assert_eq!(find_spaced_marker(&chars), Some((4, 2)));
}

#[test]
fn tags_are_scanned_to_their_end() {
    let chars = indexed("{source} rest");
    let mut pos = 1;
    assert_eq!(consume_until_closed(&chars, &mut pos, 0, '}', "entity tag"), Ok(7));
    assert_eq!(pos, 8);

    let chars = indexed("{a \"}\" b}");
    let mut pos = 1;
    assert_eq!(consume_until_closed(&chars, &mut pos, 0, '}', "entity tag"), Ok(8));

    let chars = indexed("{don't}");
    let mut pos = 1;
    assert_eq!(consume_until_closed(&chars, &mut pos, 0, '}', "entity tag"), Ok(6));

    let chars = indexed("{a \\} b");
    let mut pos = 1;
    assert_eq!(
        consume_until_closed(&chars, &mut pos, 0, '}', "entity tag"),
        Err("Unclosed entity tag starting at index 0".to_string())
    );
    assert_eq!(pos, chars.len());

    let chars = indexed("{% if x %}");
    let mut pos = 2;
    assert_eq!(consume_control_tag(&chars, &mut pos, 0), Ok(8));
    let chars = indexed("{% if x }");
    let mut pos = 2;
    assert_eq!(consume_control_tag(&chars, &mut pos, 0), Err("Unclosed control tag starting at index 0".to_string()));
}

fn literal(s: &str) -> TagSegment {
    TagSegment::Literal(s.to_string())
}

#[test]
fn entity_tags_name_their_pieces() {
    match parse_entity("the:source") {
        Ok(TagToken::EntityRef { key, article, p_type, owner_key, adjectives, flags, .. }) => {
            assert_eq!(key, literal("source"));
            assert_eq!(article, Some(literal("the")));
            assert_eq!(p_type, None);
            assert_eq!(owner_key, None);
            assert_eq!(adjectives, None);
            assert!(!flags.is_capitalized && !flags.article_indefinite && !flags.article_capitalized);
        },
        _ => panic!("expected an entity reference"),
    }
    match parse_entity("A:Source") {
        Ok(TagToken::EntityRef { key, article, flags, .. }) => {
            assert_eq!(key, literal("source"));
            assert_eq!(article, Some(literal("A")));
            assert!(flags.is_capitalized && flags.article_indefinite && flags.article_capitalized);
        },
        _ => panic!("expected an entity reference"),
    }
    match parse_entity("target:Obj") {
        Ok(TagToken::EntityRef { key, p_type, flags, .. }) => {
            assert_eq!(key, literal("target"));
            assert_eq!(p_type, Some(literal("obj")));
            assert!(flags.pronoun_capitalized);
        },
        _ => panic!("expected an entity reference"),
    }
    match parse_entity("+the:source's") {
        Ok(TagToken::EntityRef { key, flags, .. }) => {
            assert_eq!(key, literal("source"));
            assert!(flags.is_possessive && flags.force_3rd_person && flags.force_article);
        },
        _ => panic!("expected an entity reference"),
    }
    match parse_entity("SOURCE") {
        Ok(TagToken::EntityRef { key, flags, .. }) => {
            assert_eq!(key, literal("source"));
            assert!(flags.all_caps && flags.is_capitalized);
        },
        _ => panic!("expected an entity reference"),
    }
}

#[test]
fn entity_tags_read_narrative_possessives() {
    match parse_entity("Source's glowing orb") {
        Ok(TagToken::EntityRef { key, owner_key, owner_flags, adjectives, .. }) => {
            assert_eq!(key, literal("orb"));
            assert_eq!(owner_key, Some(literal("source")));
            assert!(owner_flags.is_capitalized);
            assert_eq!(adjectives, Some(literal("glowing")));
        },
        _ => panic!("expected an entity reference"),
    }
    match parse_entity("the:source's big red:ball") {
        Ok(TagToken::EntityRef { key, article, owner_key, adjectives, .. }) => {
            assert_eq!(key, literal("ball"));
            assert_eq!(article, Some(literal("the")));
            assert_eq!(owner_key, Some(literal("source")));
            assert_eq!(adjectives, Some(literal("big red")));
        },
        _ => panic!("expected an entity reference"),
    }
    match parse_entity("shiny:orb") {
        Ok(TagToken::EntityRef { key, owner_key, adjectives, .. }) => {
            assert_eq!(key, literal("orb"));
            assert_eq!(owner_key, None);
            assert_eq!(adjectives, Some(literal("shiny")));
        },
        _ => panic!("expected an entity reference"),
    }
}

#[test]
fn entity_tags_are_rejected_when_malformed() {
    assert_eq!(parse_entity("a:b:c:d:e").err(), Some("Malformed entity tag: {a:b:c:d:e}".to_string()));
    assert_eq!(parse_entity("x:b:c:d").err(), Some("Malformed entity tag: {x:b:c:d}".to_string()));
    assert_eq!(parse_entity("").err(), Some("Entity tag has an empty key: {}".to_string()));
    assert_eq!(parse_entity("the:").err(), Some("Entity tag has an article but an empty key: {the:}".to_string()));
    assert_eq!(parse_entity(":obj").err(), Some("Pronoun tag has an empty key or type: {:obj}".to_string()));
    assert_eq!(parse_entity("source..sword").err(), Some("Entity tag has an empty property segment: {source..sword}".to_string()));
    assert_eq!(parse_entity("owner:key:bogus").err(), Some("Malformed entity tag: {owner:key:bogus}".to_string()));
}

#[test]
fn verb_tags_name_their_pieces() {
    match parse_verb("source:pulse") {
        Ok(TagToken::VerbRef { subject_key, original_verb, lower_verb, dynamic_key, forced_present, forced_past, flags, .. }) => {
            assert_eq!(subject_key, Some(literal("source")));
            assert_eq!(original_verb, "pulse");
            assert_eq!(lower_verb, "pulse");
            assert_eq!(dynamic_key, None);
            assert_eq!(forced_present, None);
            assert_eq!(forced_past, None);
            assert!(!flags.is_capitalized);
        },
        _ => panic!("expected a verb reference"),
    }
    match parse_verb("-source:Be|is|are;was") {
        Ok(TagToken::VerbRef { original_verb, lower_verb, forced_present, forced_past, flags, .. }) => {
            assert_eq!(original_verb, "Be");
            assert_eq!(lower_verb, "be");
            assert_eq!(forced_present, Some(vec!["is".to_string(), "are".to_string()]));
            assert_eq!(forced_past, Some(vec!["was".to_string()]));
            assert!(flags.is_capitalized && flags.force_singular);
        },
        _ => panic!("expected a verb reference"),
    }
    match parse_verb("source:$Action ?? \"waves\"") {
        Ok(TagToken::VerbRef { dynamic_key, dynamic_fallback, flags, .. }) => {
            assert_eq!(dynamic_key, Some("action".to_string()));
            assert_eq!(dynamic_fallback, Some("waves".to_string()));
            assert!(flags.is_capitalized);
        },
        _ => panic!("expected a verb reference"),
    }
    assert!(matches!(parse_verb("SB"), Ok(TagToken::SentenceBreak)));
    assert!(matches!(parse_verb(" NO_SB "), Ok(TagToken::NoSentenceBreak)));
}

#[test]
fn verb_tags_are_rejected_when_malformed() {
    assert_eq!(parse_verb("a:b:c").err(), Some("Malformed verb tag: [a:b:c]".to_string()));
    assert_eq!(parse_verb(":walk").err(), Some("Verb tag has an empty subject key: [:walk]".to_string()));
    assert_eq!(parse_verb("a..b:walk").err(), Some("Verb tag has an empty property segment: [a..b:walk]".to_string()));
    assert_eq!(
        parse_verb("source:|goes").err(),
        Some("Verb tag has an empty verb or forced conjugation segment: [source:|goes]".to_string())
    );
}

#[test]
fn variable_tags_name_their_pieces() {
    match parse_variable("$Weather ?? 'clear'") {
        Ok(TagToken::VariableRef { key, fallback, flags }) => {
            assert_eq!(key, "weather");
            assert_eq!(fallback, Some("clear".to_string()));
            assert!(flags.is_capitalized && !flags.all_caps);
        },
        _ => panic!("expected a variable reference"),
    }
    match parse_variable("$MOOD") {
        Ok(TagToken::VariableRef { key, fallback, flags }) => {
            assert_eq!(key, "mood");
            assert_eq!(fallback, None);
            assert!(flags.all_caps);
        },
        _ => panic!("expected a variable reference"),
    }
    assert_eq!(parse_variable("$").err(), Some("Variable tag has an empty key: {$}".to_string()));
}

#[test]
fn tag_flags_start_empty() {
    let f = TagFlags::empty();
    assert!(!f.is_capitalized() && !f.is_possessive() && !f.no_smart());
}

#[test]
fn template_keys_are_listed_once_in_order() {
    let lit = |s: &str| TagSegment::Literal(s.to_string());
    let var = |s: &str| TagSegment::Variable { key: s.to_string(), fallback: None };
    let entity = |key: TagSegment, owner: Option<TagSegment>, article: Option<TagSegment>| Token::EntityRef {
        key,
        article,
        p_type: None,
        owner_key: owner,
        owner_flags: TagFlags::empty(),
        adjectives: None,
        flags: TagFlags::empty(),
    };
    let tokens = vec![
        entity(lit("sword"), Some(lit("goblin")), Some(var("goblin.article"))),
        Token::VerbRef {
            subject_key: Some(lit("goblin")),
            original_verb: "swing".to_string(),
            lower_verb: "swing".to_string(),
            dynamic_key: Some("room.verb".to_string()),
            dynamic_fallback: None,
            forced_present: None,
            forced_past: None,
            flags: TagFlags::empty(),
        },
        Token::VariableRef { key: "weather".to_string(), fallback: None, flags: TagFlags::empty() },
        entity(var("target.weapon.name"), None, None),
        Token::SentenceBreak,
    ];
    assert_eq!(extract_keys(&tokens), vec!["sword", "goblin", "room", "target.weapon"]);
}
