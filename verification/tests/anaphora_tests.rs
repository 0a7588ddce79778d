use mud_perspective::engine::PerspectiveEngine;
use mud_perspective::grammar::VerbDictionary;
use mud_perspective::models::{ActorStance, Gender, GroupEntity, RenderContext, TemplateEntity, Tense};
use mud_perspective::template::Template;

/// A character or creature that is the viewer under its own id (and then reads "you"), and
/// that a stranger sees under a disguise; a few ids carry a long description.
fn mock(id: &str, name: &str, gender: Gender, is_plural: bool, is_proper_noun: bool) -> TemplateEntity {
    let mut e = TemplateEntity::new(id, name, gender, is_plural, is_proper_noun);
    e.viewer_ids.push(id.to_string());
    e.names_for.push((id.to_string(), "you".to_string()));
    if name == "Aldran" {
        e.names_for.push(("stranger_1".to_string(), "tall man".to_string()));
        e.proper_noun_for.push(("stranger_1".to_string(), false));
    }
    if name == "the Avengers" {
        e.names_for.push(("stranger_1".to_string(), "masked heroes".to_string()));
        e.proper_noun_for.push(("stranger_1".to_string(), false));
    }
    if id == "mob_2_long" || id == "mob_3_long_collide" || id == "char_jim" {
        e.long_name = Some("large wolf".to_string());
    } else if id == "mob_1_scrawny" {
        e.long_name = Some("scrawny wolf".to_string());
    }
    e
}

fn male(id: &str, name: &str) -> TemplateEntity {
    mock(id, name, Gender::Male, false, true)
}

fn creature(id: &str, name: &str) -> TemplateEntity {
    mock(id, name, Gender::Neutral, false, false)
}

fn pack(id: &str, name: &str) -> TemplateEntity {
    mock(id, name, Gender::Plural, true, false)
}

fn render(text: &str, ctx: &mut RenderContext) -> Result<String, String> {
    let t = Template::compile(text).unwrap();
    PerspectiveEngine::render_raw(&t, ctx, &VerbDictionary::new())
}

fn render_for(viewer: &str, text: &str, key: &str, entity: &TemplateEntity) -> Result<String, String> {
    let mut ctx = RenderContext::new(viewer).with_entity(key, entity);
    render(text, &mut ctx)
}

#[test]
fn anaphora_memory_turns_names_into_pronouns() {
    let goblin = creature("mob_1", "goblin");
    let slime = creature("mob_2", "slime");
    let mut ctx = RenderContext::new("char_2").with_entity("target", &goblin).with_entity("other", &slime);

    assert_eq!(render("{target:Subj} [target:look] around.", &mut ctx).unwrap(), "A goblin looks around.");
    assert_eq!(render("{target:Subj} [target:attack]!", &mut ctx).unwrap(), "It attacks!");

    ctx.clear_anaphora();
    assert_eq!(render("{target:Subj} [target:attack]!", &mut ctx).unwrap(), "A goblin attacks!");

    ctx.clear_anaphora();
    assert_eq!(
        render("{The:target} enters. {The:other} blinks. {target:Subj} [target:scream].", &mut ctx).unwrap(),
        "The goblin enters. The slime blinks. The goblin screams."
    );

    ctx.clear_anaphora();
    assert_eq!(
        render("{Other:poss} sword falls, and {other:subj} cuts {other:reflex}.", &mut ctx).unwrap(),
        "a slime's sword falls, and it cuts itself."
    );
}

#[test]
fn test_standalone_verb_anaphora_tracking() {
    let bob = male("char_2", "Bob");
    let aldran = male("char_1", "Aldran");
    let jill = mock("char_4", "Jill", Gender::Female, false, true);

    let mut ctx1 = RenderContext::new("viewer").with_entity("bob", &bob).with_entity("aldran", &aldran);
    assert_eq!(
        render("Bob [bob:attack] {aldran}. {aldran:Subj} [aldran:fall].", &mut ctx1).unwrap(),
        "Bob attacks Aldran. Aldran falls."
    );

    let mut ctx2 = RenderContext::new("viewer").with_entity("jill", &jill).with_entity("aldran", &aldran);
    assert_eq!(
        render("Jill [jill:attack] {aldran}. {aldran:Subj} [aldran:fall].", &mut ctx2).unwrap(),
        "Jill attacks Aldran. He falls."
    );
}

#[test]
fn test_anaphora_fallback_capitalization() {
    let monster = creature("mob_1", "giant spider");
    let mut ctx = RenderContext::new("viewer").with_entity("target", &monster);
    assert_eq!(render("{target:Subj} [target:hiss].", &mut ctx).unwrap(), "A giant spider hisses.");
}

#[test]
fn test_anaphora_across_contexts() {
    let goblin = creature("mob_1", "goblin");
    let mut ctx1 = RenderContext::new("char_2").with_entity("target", &goblin);
    let _ = render("{the:target} enters.", &mut ctx1).unwrap();

    let state = ctx1.extract_anaphora();
    let mut ctx2 = RenderContext::new("char_2").with_entity("target", &goblin).with_anaphora(state);
    assert_eq!(render("{target:Subj} [target:look] around.", &mut ctx2).unwrap(), "It looks around.");
}

#[test]
fn test_anaphora_state_preserves_ambiguity() {
    let aldran = male("char_1", "Aldran");
    let bob = male("char_2", "Bob");

    let mut ctx1 = RenderContext::new("viewer").with_entity("aldran", &aldran).with_entity("bob", &bob);
    assert_eq!(render("{bob} is standing next to {aldran}.", &mut ctx1).unwrap(), "Bob is standing next to Aldran.");

    let state = ctx1.extract_anaphora();
    let mut ctx2 = RenderContext::new("viewer")
        .with_entity("aldran", &aldran)
        .with_entity("bob", &bob)
        .with_anaphora(state);
    assert_eq!(render("{aldran:Subj} [aldran:wave].", &mut ctx2).unwrap(), "Aldran waves.");
}

#[test]
fn test_anaphora_memory_limit() {
    let aldran = male("char_1", "Aldran");
    let bob = male("char_2", "Bob");
    let goblin = creature("mob_1", "goblin");

    let mut ctx = RenderContext::new("viewer")
        .with_anaphora_limit(2)
        .with_entity("aldran", &aldran)
        .with_entity("bob", &bob)
        .with_entity("goblin", &goblin);

    let _ = render("{aldran} [aldran:wave] at {bob}.", &mut ctx).unwrap();
    let _ = render("{the:goblin} [goblin:approach].", &mut ctx).unwrap();

    assert_eq!(render("{bob:Subj} [bob:smile].", &mut ctx).unwrap(), "He smiles.");
    assert_eq!(render("{aldran:Subj} [aldran:sigh].", &mut ctx).unwrap(), "Aldran sighs.");
}

#[test]
fn test_pinned_and_forgotten_anaphora() {
    let m1 = male("m1", "Bob");
    let m2 = male("m2", "Tom");
    let m3 = male("m3", "Jim");
    let m4 = male("m4", "Dan");

    let mut ctx = RenderContext::new("viewer")
        .with_anaphora_limit(2)
        .with_entity("bob", &m1)
        .with_entity("tom", &m2)
        .with_entity("jim", &m3)
        .with_entity("dan", &m4)
        .with_pinned_entity("bob");

    let _ = render("{tom} arrives.", &mut ctx).unwrap();
    let _ = render("{jim} arrives.", &mut ctx).unwrap();
    let _ = render("{dan} arrives.", &mut ctx).unwrap();

    assert_eq!(render("{bob:Subj} [bob:smile].", &mut ctx).unwrap(), "Bob smiles.");

    ctx.forget_anaphora("dan");
    assert_eq!(render("{bob:Subj} [bob:wave].", &mut ctx).unwrap(), "He waves.");

    ctx.unpin_anaphora("bob");
    let _ = render("{tom} arrives.", &mut ctx).unwrap();
    let _ = render("{jim} arrives.", &mut ctx).unwrap();
    let _ = render("{dan} arrives.", &mut ctx).unwrap();

    assert_eq!(render("{bob:Subj} [bob:nod].", &mut ctx).unwrap(), "Bob nods.");
}

#[test]
fn test_all_pinned_entities_exceed_limit() {
    let m1 = male("m1", "Bob");
    let m2 = male("m2", "Tom");
    let m3 = male("m3", "Jim");
    let m4 = male("m4", "Dan");

    let ctx = RenderContext::new("viewer")
        .with_anaphora_limit(2)
        .with_entity("bob", &m1)
        .with_entity("tom", &m2)
        .with_entity("jim", &m3)
        .with_pinned_entity("bob")
        .with_pinned_entity("tom")
        .with_pinned_entity("jim");

    assert_eq!(ctx.recent_entities.len(), 3);

    let mut ctx = ctx.with_entity("dan", &m4);
    let _ = render("{dan} arrives.", &mut ctx).unwrap();

    assert_eq!(ctx.recent_entities.len(), 3);

    let keys: Vec<String> = ctx.recent_entities.iter().map(|r| r.key.clone()).collect();
    assert!(!keys.contains(&"dan".to_string()));
    assert!(keys.contains(&"bob".to_string()));
    assert!(keys.contains(&"tom".to_string()));
    assert!(keys.contains(&"jim".to_string()));
}

#[test]
fn test_anaphora_viewer_exemption() {
    let player = male("char_1", "Aldran");
    let goblin = creature("mob_1", "goblin");
    let text = "{Source} [source:hit] {the:target}, then {source:subj} [source:step] back.";

    let mut director = RenderContext::new("char_3").with_entity("source", &player).with_entity("target", &goblin);
    assert_eq!(render(text, &mut director).unwrap(), "Aldran hits the goblin, then he steps back.");

    let mut actor = RenderContext::new("char_1").with_entity("source", &player).with_entity("target", &goblin);
    assert_eq!(render(text, &mut actor).unwrap(), "You hit the goblin, then you step back.");
}

#[test]
fn test_absolute_possessive_pronouns() {
    let player = male("char_1", "Aldran");
    let wolves = pack("mob_1", "wolves");
    let text = "The victory is {source:abs_poss}!";

    assert_eq!(render_for("char_1", text, "source", &player).unwrap(), "The victory is yours!");

    let mut director = RenderContext::new("char_2").with_entity("source", &player).with_last_mentioned("source");
    assert_eq!(render(text, &mut director).unwrap(), "The victory is his!");

    let mut plural = RenderContext::new("char_2").with_entity("source", &wolves).with_last_mentioned("source");
    assert_eq!(render(text, &mut plural).unwrap(), "The victory is theirs!");
}

#[test]
fn test_dynamic_possessive_nouns() {
    let player = male("char_1", "Aldran");
    let wolves = pack("mob_1", "wolves");
    let boss = creature("mob_2", "boss");
    let text = "You take {the:target's} gold.";

    assert_eq!(render_for("char_1", text, "target", &player).unwrap(), "You take your gold.");
    assert_eq!(render_for("char_2", text, "target", &player).unwrap(), "You take Aldran's gold.");
    assert_eq!(render_for("char_2", text, "target", &wolves).unwrap(), "You take the wolves' gold.");
    assert_eq!(render_for("char_2", text, "target", &boss).unwrap(), "You take the boss's gold.");

    let wolf_party = GroupEntity::new(vec![male("char_1", "Aldran"), pack("mob_1", "wolves")]).into_entity("wolf_party");
    assert_eq!(render_for("char_2", text, "target", &wolf_party).unwrap(), "You take Aldran and the wolves' gold.");

    assert_eq!(render_for("char_1", "You take {+target's} gold.", "target", &player).unwrap(), "You take Aldran's gold.");
}

#[test]
fn test_trailing_whitespace_possessive_suffixes() {
    let wolves_spaced = pack("mob_1", "wolves ");
    let boss_spaced = creature("mob_2", "boss   ");
    let text = "You take {the:target's} gold.";

    assert_eq!(render_for("char_2", text, "target", &wolves_spaced).unwrap(), "You take the wolves ' gold.");
    assert_eq!(render_for("char_2", text, "target", &boss_spaced).unwrap(), "You take the boss   's gold.");
}

#[test]
fn test_first_person_conjugation_and_pronouns() {
    let player = male("char_1", "Aldran");

    let mut first = RenderContext::new("char_1").with_stance(ActorStance::FirstPerson).with_entity("source", &player);
    assert_eq!(
        render("{source} [source:be] looking for {source:poss} sword.", &mut first).unwrap(),
        "I am looking for my sword."
    );

    let mut past = RenderContext::new("char_1")
        .with_stance(ActorStance::FirstPerson)
        .with_entity("source", &player)
        .with_tense(Tense::Past);
    assert_eq!(render("Before, {source} [source:be] looking.", &mut past).unwrap(), "Before, I was looking.");
}

#[test]
fn test_group_entities_with_stances() {
    let party = GroupEntity::new(vec![male("char_1", "Aldran"), male("char_2", "Bob")]).into_entity("party_group");
    let text = "{source} [source:open] the door.";

    let mut first = RenderContext::new("char_1").with_stance(ActorStance::FirstPerson).with_entity("source", &party);
    assert_eq!(render(text, &mut first).unwrap(), "Bob and I open the door.");

    let mut third = RenderContext::new("char_1").with_stance(ActorStance::ThirdPerson).with_entity("source", &party);
    assert_eq!(render(text, &mut third).unwrap(), "Aldran and Bob open the door.");
}

#[test]
fn test_anaphora_with_stances() {
    let player = male("char_1", "Aldran");
    let goblin = creature("mob_1", "goblin");
    let text = "{source} [source:hit] {the:target}. {target:Subj} [target:hit] {source:obj} back.";

    let mut first = RenderContext::new("char_1")
        .with_stance(ActorStance::FirstPerson)
        .with_entity("source", &player)
        .with_entity("target", &goblin);
    assert_eq!(render(text, &mut first).unwrap(), "I hit the goblin. It hits me back.");

    let mut third = RenderContext::new("char_1")
        .with_stance(ActorStance::ThirdPerson)
        .with_entity("source", &player)
        .with_entity("target", &goblin);
    assert_eq!(render(text, &mut third).unwrap(), "Aldran hits the goblin. It hits him back.");
}

#[test]
fn test_forced_stance_overrides_first_person() {
    let player = male("char_1", "Aldran");
    let mut first = RenderContext::new("char_1").with_stance(ActorStance::FirstPerson).with_entity("source", &player);
    assert_eq!(render("{+source} [+source:draw] {+source:poss} sword.", &mut first).unwrap(), "Aldran draws his sword.");
}

#[test]
fn test_all_pronoun_cases_with_stances() {
    let player = male("char_1", "Aldran");
    let goblin = creature("mob_1", "goblin");
    let party = GroupEntity::new(vec![male("char_1", "Aldran"), male("char_2", "Bob")]).into_entity("party_group");
    let text = "{source:Subj} [source:defend] {source:reflex}. {The:target} [target:strike] {source:obj}. It is {source:poss} fight, the victory is {source:abs_poss}!";

    let mut first = RenderContext::new("char_1")
        .with_stance(ActorStance::FirstPerson)
        .with_entity("source", &player)
        .with_entity("target", &goblin);
    assert_eq!(
        render(text, &mut first).unwrap(),
        "I defend myself. The goblin strikes me. It is my fight, the victory is mine!"
    );

    let mut first_plural = RenderContext::new("char_1")
        .with_stance(ActorStance::FirstPerson)
        .with_entity("source", &party)
        .with_entity("target", &goblin);
    assert_eq!(
        render(text, &mut first_plural).unwrap(),
        "We defend ourselves. The goblin strikes us. It is our fight, the victory is ours!"
    );

    let mut second = RenderContext::new("char_1")
        .with_stance(ActorStance::SecondPerson)
        .with_entity("source", &player)
        .with_entity("target", &goblin);
    assert_eq!(
        render(text, &mut second).unwrap(),
        "You defend yourself. The goblin strikes you. It is your fight, the victory is yours!"
    );

    let mut third = RenderContext::new("char_1")
        .with_stance(ActorStance::ThirdPerson)
        .with_entity("source", &player)
        .with_entity("target", &goblin)
        .with_last_mentioned("source");
    assert_eq!(
        render(text, &mut third).unwrap(),
        "He defends himself. The goblin strikes him. It is his fight, the victory is his!"
    );
}

#[test]
fn test_possessive_nouns_with_stances() {
    let player = male("char_1", "Aldran");
    let text = "They take {source's} gold.";

    let mut first = RenderContext::new("char_1").with_stance(ActorStance::FirstPerson).with_entity("source", &player);
    assert_eq!(render(text, &mut first).unwrap(), "They take my gold.");

    let mut second = RenderContext::new("char_1").with_stance(ActorStance::SecondPerson).with_entity("source", &player);
    assert_eq!(render(text, &mut second).unwrap(), "They take your gold.");

    let mut third = RenderContext::new("char_1").with_stance(ActorStance::ThirdPerson).with_entity("source", &player);
    assert_eq!(render(text, &mut third).unwrap(), "They take Aldran's gold.");
}

#[test]
fn test_group_entity_possessives() {
    let player = || male("char_1", "Aldran");
    let goblin = || creature("mob_1", "goblin");
    let slime = || creature("mob_2", "slime");
    let wolves = || pack("mob_3", "wolves");

    let mixed_party = GroupEntity::new(vec![player(), goblin()]).into_entity("mixed");
    let solo_party = GroupEntity::new(vec![player()]).into_entity("solo");
    let big_mixed_party = GroupEntity::new(vec![player(), goblin(), slime()]).into_entity("big");
    let solo_wolves_party = GroupEntity::new(vec![wolves()]).into_entity("solo_wolves");
    let mixed_wolves_party = GroupEntity::new(vec![wolves(), goblin()]).into_entity("mixed_wolves");
    let text = "You take {the:source's} gold.";

    let cases: Vec<(&str, ActorStance, &TemplateEntity, &str)> = vec![
        ("char_1", ActorStance::SecondPerson, &mixed_party, "You take your and the goblin's gold."),
        ("char_1", ActorStance::FirstPerson, &mixed_party, "You take the goblin's and my gold."),
        ("char_1", ActorStance::SecondPerson, &solo_party, "You take your gold."),
        ("char_1", ActorStance::FirstPerson, &solo_party, "You take my gold."),
        ("char_2", ActorStance::SecondPerson, &mixed_party, "You take Aldran and the goblin's gold."),
        ("char_1", ActorStance::FirstPerson, &big_mixed_party, "You take the goblin's, the slime's, and my gold."),
        ("char_1", ActorStance::SecondPerson, &big_mixed_party, "You take your, the goblin's, and the slime's gold."),
        ("mob_3", ActorStance::FirstPerson, &solo_wolves_party, "You take our gold."),
        ("mob_3", ActorStance::FirstPerson, &mixed_wolves_party, "You take your, the goblin's, and my gold."),
    ];
    for (viewer, stance, source, expected) in cases {
        let mut ctx = RenderContext::new(viewer).with_stance(stance).with_entity("source", source);
        assert_eq!(render(text, &mut ctx).unwrap(), expected);
    }
}

#[test]
fn test_empty_anaphora_extraction_and_injection() {
    let player = male("char_1", "Aldran");

    let ctx_empty = RenderContext::new("viewer");
    let empty_state = ctx_empty.extract_anaphora();
    assert!(empty_state.last_mentioned.is_none());
    assert!(empty_state.active_subject.is_none());
    assert!(empty_state.recent_entities.is_empty());

    let mut injected = RenderContext::new("viewer").with_entity("source", &player).with_anaphora(empty_state);
    assert_eq!(render("{source:Subj} [source:nod].", &mut injected).unwrap(), "Aldran nods.");
}

#[test]
fn test_empty_template_string() {
    let mut ctx = RenderContext::new("viewer");
    assert_eq!(render("", &mut ctx).unwrap(), "");
}

#[test]
fn test_with_last_mentioned_preserves_pinned_status() {
    let bob = male("m1", "Bob");
    let tom = male("m2", "Tom");

    let mut ctx = RenderContext::new("viewer")
        .with_anaphora_limit(1)
        .with_entity("bob", &bob)
        .with_entity("tom", &tom)
        .with_pinned_entity("bob")
        .with_last_mentioned("bob");

    let _ = render("{tom} arrives.", &mut ctx).unwrap();
    assert_eq!(ctx.recent_entities[0].key, "bob");
}

#[test]
fn test_with_anaphora_preserves_pinned_status() {
    let bob = male("m1", "Bob");
    let tom = male("m2", "Tom");

    let ctx1 = RenderContext::new("viewer").with_entity("bob", &bob).with_pinned_entity("bob");
    let state = ctx1.extract_anaphora();

    let mut ctx2 = RenderContext::new("viewer")
        .with_anaphora_limit(1)
        .with_entity("bob", &bob)
        .with_entity("tom", &tom)
        .with_anaphora(state);

    let _ = render("{tom} arrives.", &mut ctx2).unwrap();
    assert_eq!(ctx2.recent_entities.len(), 1);
    assert_eq!(ctx2.recent_entities[0].key, "bob");
}

#[test]
fn test_dot_notation_resolution() {
    let mut player = TemplateEntity::new("aldran_actor", "Aldran", Gender::Male, false, true);
    player.viewer_ids.push("char_1".to_string());
    player
        .properties
        .push(("weapon".to_string(), TemplateEntity::new("aldran_sword", "rusty sword", Gender::Neutral, false, false)));
    let text = "{Source} [source:draw] {a:source.weapon} and [source:swing] {source:poss} {source.weapon}!";

    assert_eq!(
        render_for("char_2", text, "source", &player).unwrap(),
        "Aldran draws a rusty sword and swings his rusty sword!"
    );
    assert_eq!(
        render_for("char_1", text, "source", &player).unwrap(),
        "You draw a rusty sword and swing your rusty sword!"
    );

    assert_eq!(
        render_for("char_1", "{source.shield} breaks.", "source", &player).unwrap_err(),
        "Missing property 'shield' on entity 'source'"
    );
    assert_eq!(
        render_for("char_1", "{source.weapon.edge} is sharp.", "source", &player).unwrap_err(),
        "Missing property 'edge' on entity 'source.weapon'"
    );
    assert_eq!(
        Template::compile("{a:source..weapon} is drawn.").unwrap_err(),
        "Entity tag has an empty property segment: {a:source..weapon}"
    );
}

#[test]
fn test_deeply_nested_properties() {
    let mut twig = TemplateEntity::new("twig", "twig", Gender::Neutral, false, false);
    twig.properties.push(("child".to_string(), TemplateEntity::new("leaf", "leaf", Gender::Neutral, false, false)));
    let mut branch = TemplateEntity::new("branch", "branch", Gender::Neutral, false, false);
    branch.properties.push(("child".to_string(), twig));
    let mut root = TemplateEntity::new("root", "root", Gender::Neutral, false, false);
    root.properties.push(("child".to_string(), branch));

    let mut ctx = RenderContext::new("viewer").with_entity("tree", &root);
    assert_eq!(render("You look at {the:tree.child.child.child}.", &mut ctx).unwrap(), "You look at the leaf.");
    assert_eq!(
        render("You look at {the:tree.child.child.child.bug}.", &mut ctx).unwrap_err(),
        "Missing property 'bug' on entity 'tree.child.child.child'"
    );
}

#[test]
fn test_custom_runtime_verbs() {
    let player = male("char_1", "Aldran");
    let mut verbs = VerbDictionary::new();

    mud_perspective::grammar::add_irregular_verb(&mut verbs, "yeet", "yeetses", "yeeted").unwrap();
    let t = Template::compile("{source} [source:yeet].").unwrap();
    let mut ctx = RenderContext::new("char_2").with_entity("source", &player);
    assert_eq!(PerspectiveEngine::render_raw(&t, &mut ctx, &verbs).unwrap(), "Aldran yeetses.");

    assert!(mud_perspective::grammar::add_irregular_verb(&mut verbs, "arise", "arises not", "arose not").is_err());

    mud_perspective::grammar::force_add_irregular_verb(&mut verbs, "arise", "arizez", "arouze");
    let t = Template::compile("{source} [source:arise].").unwrap();
    let mut ctx = RenderContext::new("char_2").with_entity("source", &player);
    assert_eq!(PerspectiveEngine::render_raw(&t, &mut ctx, &verbs).unwrap(), "Aldran arizez.");

    mud_perspective::grammar::clear_irregular_verbs(&mut verbs);
}

#[test]
fn test_macro_register_custom_verbs() {
    let player = male("char_1", "Aldran");
    let mut verbs = VerbDictionary::new();
    mud_perspective::grammar::add_irregular_verb(&mut verbs, "bloop", "bloopses", "bloopeded").unwrap();
    mud_perspective::grammar::add_irregular_verb(&mut verbs, "blarg", "blargs", "blarged").unwrap();

    let t1 = Template::compile("{source} [source:bloop].").unwrap();
    let t2 = Template::compile("{source} [source:blarg].").unwrap();
    let cases: Vec<(&Template, Tense, &str)> = vec![
        (&t1, Tense::Present, "Aldran bloopses."),
        (&t1, Tense::Past, "Aldran bloopeded."),
        (&t2, Tense::Present, "Aldran blargs."),
        (&t2, Tense::Past, "Aldran blarged."),
    ];
    for (t, tense, expected) in cases {
        let mut ctx = RenderContext::new("char_2").with_entity("source", &player).with_tense(tense);
        assert_eq!(PerspectiveEngine::render_raw(t, &mut ctx, &verbs).unwrap(), expected);
    }

    mud_perspective::grammar::clear_irregular_verbs(&mut verbs);
}
