use mud_perspective::engine::{EntityRefParams, PerspectiveEngine};
use mud_perspective::keymap::KeyMap;
use mud_perspective::models::{ActorStance, Gender, RenderContext, TemplateEntity};
use mud_perspective::grammar::VerbDictionary;
use mud_perspective::parser::{TagFlags, TagSegment};
use mud_perspective::tags::TagToken;
use mud_perspective::pronouns::PronounResult;
use mud_perspective::render::apply_all_caps;

fn being(id: &str, name: &str, gender: Gender) -> TemplateEntity {
    let mut e = TemplateEntity::new(id, name, gender, false, false);
    e.viewer_ids.push(id.to_string());
    e
}

fn thing(id: &str, name: &str) -> TemplateEntity {
    TemplateEntity::new(id, name, Gender::Neutral, false, false)
}

fn params(key: &str) -> EntityRefParams<'_> {
    EntityRefParams {
        key,
        article: None,
        p_type: None,
        owner_key: None,
        owner_flags: TagFlags::empty(),
        adjectives: None,
        flags: TagFlags::empty(),
        ordinal: None,
    }
}

fn render(ctx: &mut RenderContext, p: &EntityRefParams) -> Result<String, String> {
    let mut out = String::new();
    let future: Vec<&str> = Vec::new();
    let pre = KeyMap::new();
    PerspectiveEngine::render_entity_ref(ctx, &mut out, p, &future, &pre).map(|_| out)
}

#[test]
fn capitals_cover_every_letter() {
    let mut out = String::from("> ");
    apply_all_caps("rusty sword", &mut out);
    assert_eq!(out, "> RUSTY SWORD");
}

#[test]
fn the_viewer_is_addressed_as_you() {
    let hero = being("hero", "Aldric", Gender::Male);
    let mut ctx = RenderContext::new("hero").with_entity("hero", &hero);
    let p = EntityRefParams { p_type: Some("subj"), ..params("hero") };
    assert_eq!(render(&mut ctx, &p), Ok("you".to_string()));
}

#[test]
fn a_name_takes_its_article() {
    let hero = being("hero", "Aldric", Gender::Male);
    let goblin = thing("g1", "goblin");
    let mut ctx = RenderContext::new("hero").with_entity("hero", &hero).with_entity("goblin", &goblin);
    let p = EntityRefParams { article: Some("the"), ..params("goblin") };
    assert_eq!(render(&mut ctx, &p), Ok("the goblin".to_string()));
    assert_eq!(ctx.last_mentioned(), Some("goblin".to_string()));
    assert!(ctx.has_seen_entity("goblin"));
}

#[test]
fn a_second_mention_becomes_a_pronoun() {
    let hero = being("hero", "Aldric", Gender::Male);
    let goblin = thing("g1", "goblin");
    let mut ctx = RenderContext::new("hero").with_entity("hero", &hero).with_entity("goblin", &goblin);
    let first = EntityRefParams { article: Some("the"), ..params("goblin") };
    assert_eq!(render(&mut ctx, &first), Ok("the goblin".to_string()));
    let second = EntityRefParams { article: Some("the"), p_type: Some("subj"), ..params("goblin") };
    assert_eq!(render(&mut ctx, &second), Ok("it".to_string()));
}

#[test]
fn an_unknown_key_is_an_error() {
    let mut ctx = RenderContext::new("hero");
    assert_eq!(render(&mut ctx, &params("ghost")), Err("Missing entity for key: ghost".to_string()));
}

#[test]
fn a_possessive_names_the_owner_first() {
    let hero = being("hero", "Aldric", Gender::Male);
    let goblin = thing("g1", "goblin");
    let sword = thing("s1", "sword");
    let mut ctx = RenderContext::new("hero")
        .with_entity("hero", &hero)
        .with_entity("goblin", &goblin)
        .with_entity("sword", &sword);
    let p = EntityRefParams { article: Some("the"), owner_key: Some("goblin"), adjectives: Some("rusty"), ..params("sword") };
    assert_eq!(render(&mut ctx, &p), Ok("the goblin's rusty sword".to_string()));
}

#[test]
fn the_viewer_owns_with_your() {
    let hero = being("hero", "Aldric", Gender::Male);
    let sword = thing("s1", "sword");
    let mut ctx = RenderContext::new("hero").with_entity("hero", &hero).with_entity("sword", &sword);
    let p = EntityRefParams { owner_key: Some("hero"), ..params("sword") };
    assert_eq!(render(&mut ctx, &p), Ok("your sword".to_string()));
}

#[test]
fn a_missing_owner_is_an_error() {
    let sword = thing("s1", "sword");
    let mut ctx = RenderContext::new("hero").with_entity("sword", &sword);
    let p = EntityRefParams { owner_key: Some("ghost"), ..params("sword") };
    assert_eq!(render(&mut ctx, &p), Err("Missing entity for key: ghost".to_string()));
}

#[test]
fn the_third_person_names_the_viewer() {
    let hero = being("hero", "Aldric", Gender::Male);
    let mut ctx = RenderContext::new("hero").with_stance(ActorStance::ThirdPerson).with_entity("hero", &hero);
    assert_eq!(render(&mut ctx, &params("hero")), Ok("Aldric".to_string()));
}

#[test]
fn the_pronoun_step_hands_the_name_on() {
    let goblin = thing("g1", "goblin");
    let mut ctx = RenderContext::new("hero").with_entity("goblin", &goblin);
    let mut out = String::new();
    let pre = KeyMap::new();
    let p = EntityRefParams { article: Some("a"), p_type: Some("subj"), ..params("goblin") };
    let r = PerspectiveEngine::try_render_pronoun(&mut ctx, &mut out, &p, &goblin, "hero", &pre);
    assert!(matches!(r, Ok(PronounResult::Fallback { article_to_use: Some("a"), actual_p_type: Some("subj"), .. })));
    assert_eq!(out, "");
}

fn verb(subject: Option<&str>, v: &str) -> TagToken {
    TagToken::VerbRef {
        subject_key: subject.map(|s| TagSegment::Literal(s.to_string())),
        original_verb: v.to_string(),
        lower_verb: v.to_lowercase(),
        dynamic_key: None,
        dynamic_fallback: None,
        forced_present: None,
        forced_past: None,
        flags: TagFlags::empty(),
    }
}

fn render_verb(ctx: &mut RenderContext, token: &TagToken, subject: Option<&str>, values: Option<&Vec<String>>) -> Result<String, String> {
    let mut out = String::new();
    let pre = KeyMap::new();
    let dict = VerbDictionary::new();
    PerspectiveEngine::render_verb_ref(ctx, &mut out, token, subject, None, values, &dict, &pre).map(|_| out)
}

#[test]
fn verbs_agree_with_their_subject() {
    let hero = being("hero", "Aldric", Gender::Male);
    let goblin = thing("g1", "goblin");
    let mut ctx = RenderContext::new("hero").with_entity("hero", &hero).with_entity("goblin", &goblin);
    assert_eq!(render_verb(&mut ctx, &verb(Some("hero"), "pulse"), Some("hero"), None), Ok("pulse".to_string()));
    assert_eq!(render_verb(&mut ctx, &verb(Some("goblin"), "pulse"), Some("goblin"), None), Ok("pulses".to_string()));
    assert_eq!(ctx.active_subject(), Some("goblin".to_string()));
    assert_eq!(ctx.last_mentioned(), Some("goblin".to_string()));
    assert_eq!(render_verb(&mut ctx, &verb(None, "pulse"), None, None), Ok("pulses".to_string()));
}

#[test]
fn a_verb_with_an_unknown_subject_is_an_error() {
    let mut ctx = RenderContext::new("hero");
    assert_eq!(
        render_verb(&mut ctx, &verb(Some("ghost"), "pulse"), Some("ghost"), None),
        Err("Missing entity for key: ghost".to_string())
    );
}

#[test]
fn forced_forms_follow_the_subject() {
    let hero = being("hero", "Aldric", Gender::Male);
    let goblin = thing("g1", "goblin");
    let mut ctx = RenderContext::new("hero").with_entity("hero", &hero).with_entity("goblin", &goblin);
    let forced = |s: &str| TagToken::VerbRef {
        subject_key: Some(TagSegment::Literal(s.to_string())),
        original_verb: "go".to_string(),
        lower_verb: "go".to_string(),
        dynamic_key: None,
        dynamic_fallback: None,
        forced_present: Some(vec!["wend".to_string(), "wends".to_string()]),
        forced_past: None,
        flags: TagFlags::empty(),
    };
    assert_eq!(render_verb(&mut ctx, &forced("goblin"), Some("goblin"), None), Ok("wends".to_string()));
    assert_eq!(render_verb(&mut ctx, &forced("hero"), Some("hero"), None), Ok("wend".to_string()));
}

#[test]
fn verb_variables_are_listed_and_conjugated() {
    let goblin = thing("g1", "goblin");
    let mut ctx = RenderContext::new("hero").with_entity("goblin", &goblin);
    let token = TagToken::VerbRef {
        subject_key: Some(TagSegment::Literal("goblin".to_string())),
        original_verb: String::new(),
        lower_verb: String::new(),
        dynamic_key: Some("attack".to_string()),
        dynamic_fallback: None,
        forced_present: None,
        forced_past: None,
        flags: TagFlags { is_capitalized: true, ..TagFlags::empty() },
    };
    let values = vec!["slash".to_string(), "stab".to_string()];
    assert_eq!(render_verb(&mut ctx, &token, Some("goblin"), Some(&values)), Ok("Slashes and stabs".to_string()));
    assert_eq!(
        render_verb(&mut ctx, &token, Some("goblin"), None),
        Err("Missing variable for key: attack".to_string())
    );
}

#[test]
fn missing_properties_name_the_path_walked() {
    let mut hero = being("hero", "Aldric", Gender::Male);
    let weapon = thing("w1", "sword");
    hero.properties.push(("weapon".to_string(), weapon));
    let mut ctx = RenderContext::new("hero").with_entity("source", &hero);
    assert_eq!(render(&mut ctx, &params("source.shield")), Err("Missing property 'shield' on entity 'source'".to_string()));
    assert_eq!(
        render(&mut ctx, &params("source.weapon.edge")),
        Err("Missing property 'edge' on entity 'source.weapon'".to_string())
    );
    assert_eq!(render(&mut ctx, &params("ghost.weapon")), Err("Missing entity for key: ghost.weapon".to_string()));
    assert_eq!(render(&mut ctx, &params("source.weapon")), Ok("sword".to_string()));
}
