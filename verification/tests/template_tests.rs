use mud_perspective::expressions::{Condition, ConditionValue};
use mud_perspective::parser::{TagFlags, TagSegment};
use mud_perspective::template::{ConditionalBranch, Template, Token};

fn lit(s: &str) -> Token {
    Token::Literal(s.to_string())
}

fn entity(key: &str) -> Token {
    Token::EntityRef {
        key: TagSegment::Literal(key.to_string()),
        article: None,
        p_type: None,
        owner_key: None,
        owner_flags: TagFlags::empty(),
        adjectives: None,
        flags: TagFlags::empty(),
    }
}

#[test]
fn test_unclosed_tags_return_errors() {
    let entity_err = Template::compile("The {source approaches.").unwrap_err();
    assert_eq!(entity_err, "Unclosed entity tag starting at index 4");

    let verb_err = Template::compile("The goblin [attack").unwrap_err();
    assert_eq!(verb_err, "Unclosed verb tag starting at index 11");
}

#[test]
fn test_malformed_tags_return_errors() {
    let entity_err = Template::compile("The {a:b:c} approaches.").unwrap_err();
    assert_eq!(entity_err, "Malformed entity tag: {a:b:c}");

    let verb_err = Template::compile("The goblin [a:b:c]").unwrap_err();
    assert_eq!(verb_err, "Malformed verb tag: [a:b:c]");
}

#[test]
fn test_empty_tag_parts_return_errors() {
    let err1 = Template::compile("The {a:} approaches.").unwrap_err();
    assert_eq!(err1, "Entity tag has an article but an empty key: {a:}");

    let err2 = Template::compile("The {the:} approaches.").unwrap_err();
    assert_eq!(err2, "Entity tag has an article but an empty key: {the:}");

    let err3 = Template::compile("The goblin hits {:poss} shield.").unwrap_err();
    assert_eq!(err3, "Pronoun tag has an empty key or type: {:poss}");

    let err4 = Template::compile("The goblin hits {source:}.").unwrap_err();
    assert_eq!(err4, "Pronoun tag has an empty key or type: {source:}");

    let err5 = Template::compile("A {} appears.").unwrap_err();
    assert_eq!(err5, "Entity tag has an empty key: {}");

    let err6 = Template::compile("The goblin [:attack].").unwrap_err();
    assert_eq!(err6, "Verb tag has an empty subject key: [:attack]");

    let err7 = Template::compile("You [source:be|].").unwrap_err();
    assert_eq!(err7, "Verb tag has an empty verb or forced conjugation segment: [source:be|]");

    let err8 = Template::compile("You [source:|be].").unwrap_err();
    assert_eq!(err8, "Verb tag has an empty verb or forced conjugation segment: [source:|be]");

    let err9 = Template::compile("You [source:be|am||is].").unwrap_err();
    assert_eq!(err9, "Verb tag has an empty forced present conjugation segment: [source:be|am||is]");

    let err10 = Template::compile("You [source:be|am|are|is|were].").unwrap_err();
    assert_eq!(err10, "Verb tag has too many forced present conjugation segments: [source:be|am|are|is|were]");

    let err11 = Template::compile("You [source:be|am|are|is;].").unwrap_err();
    assert_eq!(err11, "Verb tag has an empty forced past conjugation segment: [source:be|am|are|is;]");

    let err12 = Template::compile("You [source:be|;was||was].").unwrap_err();
    assert_eq!(err12, "Verb tag has an empty forced past conjugation segment: [source:be|;was||was]");

    let err13 = Template::compile("You [source:be|am|are|is;was|were|was|were].").unwrap_err();
    assert_eq!(
        err13,
        "Verb tag has too many forced past conjugation segments: [source:be|am|are|is;was|were|was|were]"
    );
}

#[test]
fn templates_split_into_text_and_tags() {
    let t = Template::compile("Hello {source}, {source}!").unwrap();
    assert_eq!(t.tokens, vec![lit("Hello "), entity("source"), lit(", "), entity("source"), lit("!")]);
    assert_eq!(t.template_keys, vec!["source".to_string()]);
    assert_eq!(t.estimated_length, 25 + 5);
}

#[test]
fn escapes_comments_and_line_joins_stay_text() {
    let t = Template::compile("a \\{b\\} c{# note #}d \\\n   e \\x").unwrap();
    assert_eq!(t.tokens, vec![lit("a {b} cd e \\x")]);
    assert!(t.template_keys.is_empty());
}

#[test]
fn conditional_blocks_nest_their_branches() {
    let t = Template::compile("{% if $x == 1 %}yes{% elif target.hp > 2 %}{source}{% else %}no{% endif %}.").unwrap();
    let expected = vec![
        Token::Conditional {
            branches: vec![
                ConditionalBranch {
                    condition: Condition::Eq(
                        ConditionValue::Variable("x".to_string()),
                        ConditionValue::Number("1".to_string()),
                    ),
                    body: vec![lit("yes")],
                },
                ConditionalBranch {
                    condition: Condition::Gt(
                        ConditionValue::EntityProperty("target".to_string(), "hp".to_string()),
                        ConditionValue::Number("2".to_string()),
                    ),
                    body: vec![entity("source")],
                },
            ],
            fallback: Some(vec![lit("no")]),
        },
        lit("."),
    ];
    assert_eq!(t.tokens, expected);
    assert_eq!(t.template_keys, vec!["target".to_string(), "source".to_string()]);
}

#[test]
fn misplaced_control_tags_are_errors() {
    assert_eq!(
        Template::compile("{% if a %}x").unwrap_err(),
        "Unclosed {% if %} tag at the end of the template"
    );
    assert_eq!(Template::compile("x{% endif %}").unwrap_err(), "Unexpected {% endif %}");
    assert_eq!(Template::compile("{% else %}").unwrap_err(), "Unexpected {% else %} in this context");
    assert_eq!(Template::compile("{% elif a %}").unwrap_err(), "Unexpected {% elif %} in this context");
    assert_eq!(Template::compile("{%  foo  %}").unwrap_err(), "Unknown control tag: {% foo %}");
    assert_eq!(Template::compile("{# x").unwrap_err(), "Unclosed comment starting at index 0");
    assert_eq!(Template::compile("ab{% if").unwrap_err(), "Unclosed control tag starting at index 2");
    assert_eq!(Template::compile("{% if a = b %}{% endif %}").unwrap_err(), "Expected '==' at index 2");
}

#[test]
fn conditional_blocks_nest_to_a_limit() {
    let five = "{% if a %}{% if a %}{% if a %}{% if a %}{% if a %}x{% endif %}{% endif %}{% endif %}{% endif %}{% endif %}";
    assert_eq!(
        Template::compile_with_depth(five, 4).unwrap_err(),
        "Maximum template nesting depth of 4 exceeded"
    );
    assert!(Template::compile_with_depth(five, 8).is_ok());
}

#[test]
fn plain_text_compiles_to_one_literal() {
    let t = Template::compile("The rain keeps falling.").unwrap();
    assert_eq!(t.tokens, vec![lit("The rain keeps falling.")]);
    assert!(t.template_keys.is_empty());
    assert!(Template::compile("").unwrap().tokens.is_empty());
}
