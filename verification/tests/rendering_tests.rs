use mud_perspective::engine::PerspectiveEngine;
use mud_perspective::grammar::VerbDictionary;
use mud_perspective::models::{Gender, RenderContext, TemplateEntity};
use mud_perspective::rendering::{NO_SENTENCE_BREAK_MARK, SENTENCE_BREAK_MARK};
use mud_perspective::template::Template;
use mud_perspective::keymap::KeyMap;
use mud_perspective::debug::{DebugEntity, EntitiesPayload, SubsetConfig};
use mud_perspective::test_sets::payload_test_entities;
use mud_perspective::models::{ActorStance, Tense};

fn person(id: &str, name: &str, gender: Gender) -> TemplateEntity {
    let mut e = TemplateEntity::new(id, name, gender, false, true);
    e.viewer_ids.push(id.to_string());
    e
}

fn thing(id: &str, name: &str) -> TemplateEntity {
    TemplateEntity::new(id, name, Gender::Neutral, false, false)
}

fn render(text: &str, ctx: &mut RenderContext) -> Result<String, String> {
    let t = Template::compile(text).unwrap();
    PerspectiveEngine::render_raw(&t, ctx, &VerbDictionary::new())
}

#[test]
fn a_template_renders_its_tags_in_order() {
    let hero = person("char_1", "Aldran", Gender::Male);
    let sword = thing("item_1", "rusty sword");
    let mut ctx = RenderContext::new("char_2").with_entity("source", &hero).with_entity("weapon", &sword);
    assert_eq!(render("{Source} [source:draw] {a:weapon}.", &mut ctx), Ok("Aldran draws a rusty sword.".to_string()));
    let mut ctx = RenderContext::new("char_1").with_entity("source", &hero).with_entity("weapon", &sword);
    assert_eq!(render("{Source} [source:draw] {a:weapon}.", &mut ctx), Ok("You draw a rusty sword.".to_string()));
}

#[test]
fn a_missing_entity_stops_the_render() {
    let hero = person("char_1", "Aldran", Gender::Male);
    let mut ctx = RenderContext::new("char_2").with_entity("source", &hero);
    assert_eq!(render("{Source} sees {target}.", &mut ctx), Err("Missing entity for key: target".to_string()));
}

#[test]
fn conditional_blocks_take_their_first_true_branch() {
    let hero = person("char_1", "Aldran", Gender::Male);
    let mut ctx = RenderContext::new("char_2")
        .with_entity("source", &hero)
        .with_variable("weather", vec!["rain".to_string()]);
    assert_eq!(
        render("{% if $weather == \"rain\" %}Wet{% elif $weather %}Odd{% else %}Dry{% endif %}.", &mut ctx),
        Ok("Wet.".to_string())
    );
    assert_eq!(render("{% if $snow %}Cold{% else %}Mild{% endif %}.", &mut ctx), Ok("Mild.".to_string()));
    assert_eq!(
        render("{% if $weather == 1 %}One{% endif %}", &mut ctx),
        Err("Numeric conditions are not evaluated".to_string())
    );
}

#[test]
fn variables_and_capitals_are_written() {
    let mut ctx = RenderContext::new("char_2").with_variable("loot", vec!["gold".to_string(), "gems".to_string()]);
    assert_eq!(render("You find {$loot}.", &mut ctx), Ok("You find gold and gems.".to_string()));
}

#[test]
fn sentence_marks_are_kept_for_typesetting() {
    let mut ctx = RenderContext::new("char_2");
    let t = Template { tokens: vec![mud_perspective::template::Token::SentenceBreak, mud_perspective::template::Token::NoSentenceBreak], template_keys: vec![], estimated_length: 0 };
    let out = PerspectiveEngine::render_raw(&t, &mut ctx, &VerbDictionary::new()).unwrap();
    assert_eq!(out.chars().collect::<Vec<char>>(), vec![SENTENCE_BREAK_MARK, NO_SENTENCE_BREAK_MARK]);
}

#[test]
fn a_context_that_clears_itself_forgets_after_rendering() {
    let hero = person("char_1", "Aldran", Gender::Male);
    let mut ctx = RenderContext::new("char_2").with_entity("source", &hero);
    ctx.auto_clear = true;
    assert_eq!(render("{Source} waits.", &mut ctx), Ok("Aldran waits.".to_string()));
    assert!(ctx.recent_entities.is_empty());
    assert_eq!(ctx.last_mentioned, None);
}

#[test]
fn standard_entities_test_every_combination() {
    let t = Template::compile("{Source} [source:wave].").unwrap();
    let mut bindings = KeyMap::new();
    bindings.insert("source".to_string(), "actors".to_string());
    let lines = PerspectiveEngine::test_template_with_standard_entities(&t, &bindings, false, &VerbDictionary::new()).unwrap();
    // 7 viewers, 3 stances, 3 tenses, 7 actors (six entities and a group).
    assert_eq!(lines.len(), 7 * 3 * 3 * 7);
    assert_eq!(lines[0], "[Viewer: bystander_1, FirstPerson, Present] {source: Aldran} -> Aldran waves.");
    assert_eq!(lines[6], "[Viewer: bystander_1, FirstPerson, Present] {source: Aldran and goblin} -> Aldran and goblin wave.");
    let viewer_line = &lines[7 * 3 * 3];
    assert_eq!(viewer_line, "[Viewer: viewer_1, FirstPerson, Present] {source: Aldran} -> I wave.");
}

#[test]
fn payload_sets_group_entities_by_subset() {
    let mut configs = KeyMap::new();
    configs.insert("items".to_string(), SubsetConfig { viewer_capable: false });
    let d = |id: &str, name: &str, subset: &str| DebugEntity {
        id: id.to_string(),
        name: name.to_string(),
        gender: Gender::Neutral,
        is_plural: false,
        is_proper_noun: false,
        subset: subset.to_string(),
    };
    let payload = EntitiesPayload { subsets: configs, entities: vec![d("a", "orc", "mobs"), d("b", "axe", "items"), d("c", "elf", "mobs")] };
    let (subsets, viewers) = payload_test_entities(&payload);
    assert_eq!(viewers, vec!["bystander_1".to_string(), "a".to_string(), "c".to_string()]);
    let mobs: Vec<&str> = subsets.get("mobs").unwrap().iter().map(|e| e.name.as_str()).collect();
    assert_eq!(mobs, vec!["orc", "elf"]);
    assert_eq!(subsets.get("items").unwrap().len(), 1);
    assert!(!subsets.contains_key("actors"));
}

#[test]
fn generated_lines_render_each_case() {
    let t = Template::compile("{Source} [source:wave].").unwrap();
    let mut subsets = KeyMap::new();
    subsets.insert("actors".to_string(), vec![person("p1", "Iris", Gender::Female)]);
    let lines = PerspectiveEngine::generate_template_permutations(
        &t,
        &vec!["p1".to_string()],
        &vec![ActorStance::SecondPerson],
        &vec![Tense::Past],
        &subsets,
        &KeyMap::new(),
        true,
        &VerbDictionary::new(),
    )
    .unwrap();
    assert_eq!(lines, vec!["[Viewer: p1, SecondPerson, Past, Lookahead] {source: Iris} -> You waved.".to_string()]);
}
