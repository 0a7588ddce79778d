use mud_perspective::engine::PerspectiveEngine;
use mud_perspective::evaluator::{
    check_condition, evaluate_condition, get_string_property, resolve_entity_property, resolve_tag_segment,
};
use mud_perspective::expressions::{Condition, ConditionValue};
use mud_perspective::grammar::get_collision_options;
use mud_perspective::keymap::KeyMap;
use mud_perspective::models::{Gender, RenderContext, TemplateEntity};
use mud_perspective::narrative::get_entity;
use mud_perspective::parser::{TagFlags, TagSegment};

fn thing(id: &str, name: &str) -> TemplateEntity {
    TemplateEntity::new(id, name, Gender::Neutral, false, false)
}

fn var(key: &str, fallback: Option<&str>) -> TagSegment {
    TagSegment::Variable { key: key.to_string(), fallback: fallback.map(|f| f.to_string()) }
}

#[test]
fn entities_are_found_by_key_and_by_path() {
    let mut hero = thing("hero", "Aldric");
    let mut weapon = thing("w1", "sword");
    weapon.string_properties.push(("color".to_string(), "red".to_string()));
    hero.properties.push(("weapon".to_string(), weapon));
    let ctx = RenderContext::new("char_1").with_entity("source", &hero);
    assert_eq!(get_entity(&ctx, "source").unwrap().name, "Aldric");
    assert_eq!(get_entity(&ctx, "source.weapon").unwrap().name, "sword");
    assert_eq!(get_entity(&ctx, "source.shield").unwrap_err(), "Missing property 'shield' on entity 'source'");
    assert_eq!(get_entity(&ctx, "source.weapon.edge").unwrap_err(), "Missing property 'edge' on entity 'source.weapon'");
    assert_eq!(get_entity(&ctx, "nobody").unwrap_err(), "Missing entity for key: nobody");
}

#[test]
fn text_properties_are_read_through_paths() {
    let mut hero = thing("hero", "Aldric");
    hero.string_properties.push(("mood".to_string(), "grim".to_string()));
    let mut weapon = thing("w1", "sword");
    weapon.string_properties.push(("color".to_string(), "red".to_string()));
    hero.properties.push(("weapon".to_string(), weapon));
    let ctx = RenderContext::new("char_1").with_entity("source", &hero);
    let pre = KeyMap::new();
    assert_eq!(resolve_entity_property(&ctx, "source.mood", None, &pre), Ok(Some("grim".to_string())));
    assert_eq!(resolve_entity_property(&ctx, "source.weapon.color", None, &pre), Ok(Some("red".to_string())));
    assert_eq!(resolve_entity_property(&ctx, "source.age", Some("old"), &pre), Ok(Some("old".to_string())));
    assert_eq!(
        resolve_entity_property(&ctx, "source.age", None, &pre),
        Err("Missing string property 'age' on entity 'source'".to_string())
    );
    assert_eq!(resolve_entity_property(&ctx, "weather", None, &pre), Ok(None));
    assert_eq!(resolve_entity_property(&ctx, "nobody.mood", None, &pre), Ok(None));
    assert_eq!(get_string_property(&hero, "mood"), Some("grim".to_string()));
    assert_eq!(get_string_property(&hero, "age"), None);
}

#[test]
fn tag_segments_read_literals_properties_and_variables() {
    let mut hero = thing("hero", "Aldric");
    hero.string_properties.push(("mood".to_string(), "grim".to_string()));
    let ctx = RenderContext::new("char_1")
        .with_entity("source", &hero)
        .with_variable("weather", vec!["cold".to_string(), "wet".to_string()])
        .with_variable("none", vec![]);
    let pre = KeyMap::new();
    assert_eq!(resolve_tag_segment(&ctx, &TagSegment::Literal("the".to_string()), &pre), Ok("the".to_string()));
    assert_eq!(resolve_tag_segment(&ctx, &var("source.mood", None), &pre), Ok("grim".to_string()));
    assert_eq!(resolve_tag_segment(&ctx, &var("weather", None), &pre), Ok("cold wet".to_string()));
    assert_eq!(resolve_tag_segment(&ctx, &var("none", None), &pre), Ok("".to_string()));
    assert_eq!(resolve_tag_segment(&ctx, &var("season", Some("spring")), &pre), Ok("spring".to_string()));
    assert_eq!(resolve_tag_segment(&ctx, &var("season", None), &pre), Err("Missing variable for key: season".to_string()));
}

#[test]
fn conditions_read_truths_and_texts() {
    let mut hero = thing("hero", "Aldric");
    hero.conditions.push("is_hidden".to_string());
    hero.string_properties.push(("mood".to_string(), "grim".to_string()));
    let ctx = RenderContext::new("char_1")
        .with_entity("source", &hero)
        .with_variable("flag", vec!["false".to_string()])
        .with_variable("many", vec!["a".to_string(), "b".to_string()]);
    let pre = KeyMap::new();
    let hidden = Condition::Value(ConditionValue::EntityProperty("source".to_string(), "is_hidden".to_string()));
    assert_eq!(evaluate_condition(&ctx, &hidden, &pre), Some(true));
    assert!(check_condition(&hero, "is_hidden"));
    assert!(!check_condition(&hero, "is_dead"));
    let flag = Condition::Value(ConditionValue::Variable("flag".to_string()));
    assert_eq!(evaluate_condition(&ctx, &flag, &pre), Some(false));
    let many = Condition::Value(ConditionValue::Variable("many".to_string()));
    assert_eq!(evaluate_condition(&ctx, &many, &pre), Some(true));
    let zero = Condition::Value(ConditionValue::Literal("0".to_string()));
    assert_eq!(evaluate_condition(&ctx, &zero, &pre), Some(false));
    let and = Condition::And(Box::new(Condition::Value(ConditionValue::Literal("FALSE".to_string()))), Box::new(hidden));
    assert_eq!(evaluate_condition(&ctx, &and, &pre), Some(false));
    let mood = Condition::Eq(
        ConditionValue::EntityProperty("source".to_string(), "mood".to_string()),
        ConditionValue::Literal("grim".to_string()),
    );
    assert_eq!(evaluate_condition(&ctx, &mood, &pre), Some(true));
    let not_mood = Condition::Not(Box::new(Condition::NotEq(
        ConditionValue::Variable("missing".to_string()),
        ConditionValue::EntityProperty("source".to_string(), "age".to_string()),
    )));
    assert_eq!(evaluate_condition(&ctx, &not_mood, &pre), Some(true));
    let numeric = Condition::Gt(ConditionValue::Number("3".to_string()), ConditionValue::Number("2".to_string()));
    assert_eq!(evaluate_condition(&ctx, &numeric, &pre), None);
}

#[test]
fn variable_tags_are_formatted() {
    let mut hero = thing("hero", "Aldric");
    hero.string_properties.push(("mood".to_string(), "grim".to_string()));
    let ctx = RenderContext::new("char_1")
        .with_entity("source", &hero)
        .with_variable("items", vec!["sword".to_string(), "shield".to_string(), "bow".to_string()]);
    let pre = KeyMap::new();
    let mut caps = TagFlags::empty();
    caps.is_capitalized = true;
    let mut out = String::from("> ");
    PerspectiveEngine::render_variable_ref(&ctx, &mut out, "items", None, caps, &pre).unwrap();
    assert_eq!(out, "> Sword, shield, and bow");
    let mut out = String::new();
    let mut loud = TagFlags::empty();
    loud.all_caps = true;
    PerspectiveEngine::render_variable_ref(&ctx, &mut out, "source.mood", None, loud, &pre).unwrap();
    assert_eq!(out, "GRIM");
    let mut out = String::new();
    PerspectiveEngine::render_variable_ref(&ctx, &mut out, "weather", Some("rain"), caps, &pre).unwrap();
    assert_eq!(out, "Rain");
    let mut out = String::from("x");
    let r = PerspectiveEngine::render_variable_ref(&ctx, &mut out, "weather", None, caps, &pre);
    assert_eq!(r, Err("Missing variable for key: weather".to_string()));
    assert_eq!(out, "x");
}

#[test]
fn entity_tags_read_their_segments_first() {
    let goblin = thing("g1", "goblin");
    let mut ctx = RenderContext::new("char_1")
        .with_entity("goblin", &goblin)
        .with_variable("who", vec!["goblin".to_string()]);
    let pre = KeyMap::new();
    let future: Vec<&str> = Vec::new();
    let mut out = String::new();
    let r = PerspectiveEngine::render_entity_token(
        &mut ctx,
        &mut out,
        &var("who", None),
        &Some(TagSegment::Literal("the".to_string())),
        &None,
        &None,
        TagFlags::empty(),
        &None,
        TagFlags::empty(),
        &future,
        &pre,
    );
    assert_eq!(r, Ok(()));
    assert_eq!(out, "the goblin");
    let mut out = String::new();
    let r = PerspectiveEngine::render_entity_token(
        &mut ctx,
        &mut out,
        &var("whom", None),
        &None,
        &None,
        &None,
        TagFlags::empty(),
        &None,
        TagFlags::empty(),
        &future,
        &pre,
    );
    assert_eq!(r, Err("Missing variable for key: whom".to_string()));
    assert_eq!(out, "");
}

#[test]
fn ambiguous_verbs_list_their_past_forms() {
    assert_eq!(get_collision_options("lie"), Some(vec!["lay", "lied"]));
    assert_eq!(get_collision_options("walk"), None);
    let ctx = RenderContext::new("char_1");
    ctx.clear_target_cache();
}

fn verb_tag(subject: Option<TagSegment>, verb: &str, dynamic_key: Option<&str>) -> mud_perspective::tags::TagToken {
    mud_perspective::tags::TagToken::VerbRef {
        subject_key: subject,
        original_verb: verb.to_string(),
        lower_verb: verb.to_lowercase(),
        dynamic_key: dynamic_key.map(|d| d.to_string()),
        dynamic_fallback: None,
        forced_present: None,
        forced_past: None,
        flags: TagFlags::empty(),
    }
}

#[test]
fn verb_tags_read_their_subject_and_verb_variables() {
    let mut goblin = thing("g1", "goblin");
    goblin.string_properties.push(("attack".to_string(), "bite".to_string()));
    let mut ctx = RenderContext::new("char_1")
        .with_entity("goblin", &goblin)
        .with_variable("who", vec!["goblin".to_string()])
        .with_variable("act", vec!["swing".to_string(), "miss".to_string()]);
    let pre = KeyMap::new();
    let custom = mud_perspective::grammar::VerbDictionary::new();
    let mut out = String::new();
    let r = PerspectiveEngine::render_verb_token(&mut ctx, &mut out, &verb_tag(Some(var("who", None)), "walk", None), &custom, &pre);
    assert_eq!(r, Ok(()));
    assert_eq!(out, "walks");
    let mut out = String::new();
    let r = PerspectiveEngine::render_verb_token(&mut ctx, &mut out, &verb_tag(Some(TagSegment::Literal("goblin".to_string())), "", Some("act")), &custom, &pre);
    assert_eq!(r, Ok(()));
    assert_eq!(out, "swings and misses");
    let mut out = String::new();
    let r = PerspectiveEngine::render_verb_token(&mut ctx, &mut out, &verb_tag(Some(TagSegment::Literal("goblin".to_string())), "", Some("goblin.attack")), &custom, &pre);
    assert_eq!(r, Ok(()));
    assert_eq!(out, "bites");
    let mut out = String::new();
    let r = PerspectiveEngine::render_verb_token(&mut ctx, &mut out, &verb_tag(Some(TagSegment::Literal("goblin".to_string())), "", Some("goblin.cry")), &custom, &pre);
    assert_eq!(r, Err("Missing string property 'cry' on entity 'goblin'".to_string()));
    assert_eq!(out, "");
    let r = PerspectiveEngine::render_verb_token(&mut ctx, &mut out, &verb_tag(Some(var("whom", None)), "walk", None), &custom, &pre);
    assert_eq!(r, Err("Missing variable for key: whom".to_string()));
}

fn branch(c: Condition) -> mud_perspective::template::ConditionalBranch {
    mud_perspective::template::ConditionalBranch { condition: c, body: vec![] }
}

#[test]
fn a_block_takes_its_first_true_branch() {
    let ctx = RenderContext::new("char_1").with_variable("rain", vec!["yes".to_string()]);
    let pre = KeyMap::new();
    let lit = |s: &str| Condition::Value(ConditionValue::Literal(s.to_string()));
    let rain = Condition::Value(ConditionValue::Variable("rain".to_string()));
    let branches = vec![branch(lit("false")), branch(rain), branch(lit("yes"))];
    assert_eq!(mud_perspective::evaluator::select_branch(&ctx, &branches, &pre), Some(Some(1)));
    let none = vec![branch(lit("0")), branch(lit(""))];
    assert_eq!(mud_perspective::evaluator::select_branch(&ctx, &none, &pre), Some(None));
    let numeric = vec![
        branch(lit("false")),
        branch(Condition::Lt(ConditionValue::Number("1".to_string()), ConditionValue::Number("2".to_string()))),
        branch(lit("yes")),
    ];
    assert_eq!(mud_perspective::evaluator::select_branch(&ctx, &numeric, &pre), None);
}
