use mud_perspective::engine::PerspectiveEngine;
use mud_perspective::grammar::VerbDictionary;
use mud_perspective::models::{ActorStance, Gender, RenderContext, TemplateEntity, Tense};
use mud_perspective::template::Template;

/// A creature that is the viewer under its own id; a few ids carry a long description.
fn mob(id: &str, name: &str, gender: Gender, is_proper_noun: bool) -> TemplateEntity {
    let mut e = TemplateEntity::new(id, name, gender, gender == Gender::Plural, is_proper_noun);
    e.viewer_ids.push(id.to_string());
    e.names_for.push((id.to_string(), "you".to_string()));
    if id == "mob_2_long" || id == "mob_3_long_collide" || id == "char_jim" {
        e.long_name = Some("large wolf".to_string());
    } else if id == "mob_1_scrawny" {
        e.long_name = Some("scrawny wolf".to_string());
    }
    e
}

fn wolf(id: &str) -> TemplateEntity {
    mob(id, "wolf", Gender::Neutral, false)
}

/// An entity with an optional long description, plural exactly when its gender is.
fn configurable(id: &str, name: &str, long_name: Option<&str>, gender: Gender) -> TemplateEntity {
    let mut e = TemplateEntity::new(id, name, gender, gender == Gender::Plural, false);
    e.viewer_ids.push(id.to_string());
    e.long_name = long_name.map(|s| s.to_string());
    e
}

fn render(text: &str, ctx: &mut RenderContext) -> Result<String, String> {
    let t = Template::compile(text).unwrap();
    PerspectiveEngine::render_raw(&t, ctx, &VerbDictionary::new())
}

#[test]
fn test_long_description_disambiguation() {
    let wolf1 = wolf("mob_1");
    let wolf2 = wolf("mob_2_long");
    let mut ctx = RenderContext::new("char_1").with_entity("source", &wolf1).with_entity("other", &wolf2);

    assert_eq!(render("{A:source} and {a:other} arrive.", &mut ctx).unwrap(), "A wolf and a large wolf arrive.");

    ctx.clear_anaphora();
    assert_eq!(
        render("{A:source} and {a:other} arrive. {other:Subj} [other:howl].", &mut ctx).unwrap(),
        "A wolf and a large wolf arrive. The large wolf howls."
    );
}

#[test]
fn test_long_description_disambiguation_collision() {
    let wolf1 = wolf("mob_2_long");
    let wolf2 = wolf("mob_3_long_collide");
    let mut ctx = RenderContext::new("char_1").with_entity("source", &wolf1).with_entity("other", &wolf2);
    assert_eq!(render("{A:source} and {a:other} arrive.", &mut ctx).unwrap(), "A wolf and another wolf arrive.");
}

#[test]
fn test_long_description_partial_disambiguation() {
    let scrawny = wolf("mob_1_scrawny");
    let large1 = wolf("mob_2_long");
    let large2 = wolf("mob_3_long_collide");
    let mut ctx = RenderContext::new("char_1")
        .with_entity("w1", &scrawny)
        .with_entity("w2", &large1)
        .with_entity("w3", &large2);
    assert_eq!(
        render("{A:w1} enters. {A:w2} enters. {A:w3} enters.", &mut ctx).unwrap(),
        "A wolf enters. A large wolf enters. Another large wolf enters."
    );
}

#[test]
fn test_long_description_phantom_collision() {
    let jim = mob("char_jim", "Jim", Gender::Male, true);
    let scrawny = wolf("mob_1_scrawny");
    let large1 = wolf("mob_2_long");
    let large2 = wolf("mob_3_long_collide");
    let mut ctx = RenderContext::new("char_1")
        .with_entity("jim", &jim)
        .with_entity("w1", &scrawny)
        .with_entity("w2", &large1)
        .with_entity("w3", &large2);
    assert_eq!(
        render("{A:jim} enters. {A:w1} enters. {A:w2} enters. {A:w3} enters.", &mut ctx).unwrap(),
        "Jim enters. A wolf enters. A large wolf enters. Another large wolf enters."
    );
}

#[test]
fn test_long_description_mutual_exclusion_fallback() {
    let w1 = configurable("w1", "wolf", None, Gender::Neutral);
    let w2 = configurable("w2", "wolf", Some("large wolf"), Gender::Neutral);
    let mut ctx = RenderContext::new("viewer").with_entity("w1", &w1).with_entity("w2", &w2);
    assert_eq!(
        render("{A:w1} and {a:w2} arrive. {w1:Subj} [w1:bark]. {w2:Subj} [w2:growl].", &mut ctx).unwrap(),
        "A wolf and a large wolf arrive. The wolf barks. The large wolf growls."
    );
}

#[test]
fn test_long_description_identical_to_unrelated_short() {
    let w1 = configurable("w1", "wolf", None, Gender::Neutral);
    let w2 = configurable("w2", "wolf", Some("dire wolf"), Gender::Neutral);
    let d1 = configurable("d1", "dire wolf", None, Gender::Neutral);
    let mut ctx = RenderContext::new("viewer")
        .with_entity("w1", &w1)
        .with_entity("w2", &w2)
        .with_entity("d1", &d1);
    assert_eq!(
        render("{A:w1}, {a:d1}, and {a:w2} arrive.", &mut ctx).unwrap(),
        "A wolf, a dire wolf, and another wolf arrive."
    );
}

#[test]
fn test_long_description_identical_long_names() {
    let w2 = configurable("w2", "wolf", Some("large wolf"), Gender::Neutral);
    let w3 = configurable("w3", "wolf", Some("large wolf"), Gender::Neutral);
    let mut ctx = RenderContext::new("viewer").with_entity("w2", &w2).with_entity("w3", &w3);
    assert_eq!(render("{A:w2} and {a:w3} arrive.", &mut ctx).unwrap(), "A wolf and another wolf arrive.");
}

#[test]
fn test_long_description_empty_or_same() {
    let w1 = configurable("w1", "wolf", None, Gender::Neutral);
    let w2 = configurable("w2", "wolf", Some("wolf"), Gender::Neutral);
    let mut ctx = RenderContext::new("viewer").with_entity("w1", &w1).with_entity("w2", &w2);
    assert_eq!(render("{A:w1} and {a:w2} arrive.", &mut ctx).unwrap(), "A wolf and another wolf arrive.");
}

#[test]
fn test_long_description_mixed_availability_order_a() {
    let w1 = configurable("w1", "wolf", Some("large wolf"), Gender::Neutral);
    let w2 = configurable("w2", "wolf", None, Gender::Neutral);
    let mut ctx = RenderContext::new("viewer").with_entity("w1", &w1).with_entity("w2", &w2);
    assert_eq!(
        render("{A:w1} and {a:w2} arrive. {w1:Subj} [w1:growl]. {w2:Subj} [w2:bark].", &mut ctx).unwrap(),
        "A wolf and another wolf arrive. The large wolf growls. The wolf barks."
    );
}

#[test]
fn test_long_description_mixed_availability_order_b() {
    let w1 = configurable("w1", "wolf", Some("large wolf"), Gender::Neutral);
    let w2 = configurable("w2", "wolf", None, Gender::Neutral);
    let mut ctx = RenderContext::new("viewer").with_entity("w1", &w1).with_entity("w2", &w2);
    assert_eq!(
        render("{A:w2} and {a:w1} arrive. {w2:Subj} [w2:bark]. {w1:Subj} [w1:growl].", &mut ctx).unwrap(),
        "A wolf and a large wolf arrive. The wolf barks. The large wolf growls."
    );
}

#[test]
fn test_long_description_lookahead() {
    let w1 = configurable("w1", "wolf", Some("large wolf"), Gender::Neutral);
    let w2 = configurable("w2", "wolf", None, Gender::Neutral);
    let text = "{A:w1} and {a:w2} arrive. {w1:Subj} [w1:growl]. {w2:Subj} [w2:bark].";

    let mut plain = RenderContext::new("viewer").with_entity("w1", &w1).with_entity("w2", &w2);
    assert_eq!(
        render(text, &mut plain).unwrap(),
        "A wolf and another wolf arrive. The large wolf growls. The wolf barks."
    );

    let mut ahead = RenderContext::new("viewer").with_entity("w1", &w1).with_entity("w2", &w2).with_lookahead(true);
    assert_eq!(
        render(text, &mut ahead).unwrap(),
        "A large wolf and a wolf arrive. The large wolf growls. The wolf barks."
    );
}

#[test]
fn test_indefinite_article_extended_occurrences() {
    let w1 = configurable("w1", "wolf", None, Gender::Neutral);
    let w2 = configurable("w2", "wolf", None, Gender::Neutral);
    let w3 = configurable("w3", "wolf", None, Gender::Neutral);
    let w4 = configurable("w4", "wolf", None, Gender::Neutral);
    let mut ctx = RenderContext::new("viewer")
        .with_entity("w1", &w1)
        .with_entity("w2", &w2)
        .with_entity("w3", &w3)
        .with_entity("w4", &w4);
    assert_eq!(
        render("{A:w1} enters. {A:w2} enters. {A:w3} enters. {A:w4} enters.", &mut ctx).unwrap(),
        "A wolf enters. Another wolf enters. A third wolf enters. A fourth wolf enters."
    );
}

#[test]
fn test_ordinals_and_resets() {
    let w1 = configurable("w1", "wolf", None, Gender::Neutral);
    let w2 = configurable("w2", "wolf", None, Gender::Neutral);
    let mut ctx = RenderContext::new("viewer").with_entity("w1", &w1).with_entity("w2", &w2);

    assert_eq!(
        render("{A:w1} walks in. {A:w2} walks in. {The:w1} howls. {The:w2} grins.", &mut ctx).unwrap(),
        "A wolf walks in. Another wolf walks in. The first wolf howls. The second wolf grins."
    );

    ctx.forget_anaphora("w2");
    assert_eq!(render("{The:w1} sighs.", &mut ctx).unwrap(), "The wolf sighs.");

    assert_eq!(
        render("{A:w2} returns. {w1:Subj} [w1:growl] at {the:w2}. {w2:Subj} [w2:flee].", &mut ctx).unwrap(),
        "Another wolf returns. The first wolf growls at the second wolf. The second wolf flees."
    );
}

#[test]
fn test_resolve_target_names_and_ordinals() {
    let wolf1 = TemplateEntity::new("w1", "wolf", Gender::Neutral, false, false);
    let wolf2 = TemplateEntity::new("w2", "wolf", Gender::Neutral, false, false);
    let orc = TemplateEntity::new("mob_1", "orc", Gender::Male, false, false);
    let mut ctx = RenderContext::new("viewer")
        .with_entity("w1", &wolf1)
        .with_entity("w2", &wolf2)
        .with_entity("orc", &orc);

    render("{A:w1}, {a:orc}, and {a:w2} arrive.", &mut ctx).unwrap();

    let matches = ctx.resolve_target("the orc");
    assert_eq!(matches.len(), 1);
    assert_eq!(matches[0].key, "orc");

    let matches = ctx.resolve_target("the first wolf");
    assert_eq!(matches.len(), 1);
    assert_eq!(matches[0].key, "w1");

    let matches = ctx.resolve_target("the 2nd wolf");
    assert_eq!(matches.len(), 1);
    assert_eq!(matches[0].key, "w2");

    let matches = ctx.resolve_target("a wolf");
    assert_eq!(matches.len(), 2);
    let mut keys: Vec<String> = matches.iter().map(|m| m.key.clone()).collect();
    keys.sort();
    assert_eq!(keys, vec!["w1", "w2"]);
}

#[test]
fn test_resolve_target_ordinals_with_embedded_articles() {
    let ring1 = TemplateEntity::new("r1", "a ring", Gender::Neutral, false, false);
    let ring2 = TemplateEntity::new("r2", "a ring", Gender::Neutral, false, false);
    let mut ctx = RenderContext::new("viewer").with_entity("r1", &ring1).with_entity("r2", &ring2);

    render("{r1} and {r2} are here.", &mut ctx).unwrap();

    let m1 = ctx.resolve_target("first ring");
    assert_eq!(m1.len(), 1);
    assert_eq!(m1[0].key, "r1");
}

#[test]
fn test_resolve_target_ordinals_with_long_descriptions() {
    let w_normal = configurable("w_normal", "wolf", None, Gender::Neutral);
    let dw1 = configurable("dw1", "wolf", Some("dire wolf"), Gender::Neutral);
    let dw2 = configurable("dw2", "wolf", Some("dire wolf"), Gender::Neutral);
    let mut ctx = RenderContext::new("viewer")
        .with_entity("w_normal", &w_normal)
        .with_entity("dw1", &dw1)
        .with_entity("dw2", &dw2);

    render("{A:w_normal}, {a:dw1}, and {a:dw2} arrive.", &mut ctx).unwrap();

    let m1 = ctx.resolve_target("the first dire wolf");
    assert_eq!(m1.len(), 1);
    assert_eq!(m1[0].key, "dw1");

    let m2 = ctx.resolve_target("the 2nd dire wolf");
    assert_eq!(m2.len(), 1);
    assert_eq!(m2[0].key, "dw2");

    let m3 = ctx.resolve_target("the dire wolf");
    assert_eq!(m3.len(), 2);
}

#[test]
fn test_resolve_target_shortcut_ordinals() {
    let orc1 = TemplateEntity::new("o1", "orc", Gender::Male, false, false);
    let orc2 = TemplateEntity::new("o2", "orc", Gender::Male, false, false);
    let goblin = TemplateEntity::new("g1", "goblin", Gender::Neutral, false, false);
    let mut ctx = RenderContext::new("viewer")
        .with_entity("o1", &orc1)
        .with_entity("o2", &orc2)
        .with_entity("g1", &goblin);

    render("{A:o1} and {a:o2} arrive.", &mut ctx).unwrap();

    let m1 = ctx.resolve_target("orc 1");
    assert_eq!(m1.len(), 1);
    assert_eq!(m1[0].key, "o1");

    let m2 = ctx.resolve_target("orc 2");
    assert_eq!(m2.len(), 1);
    assert_eq!(m2[0].key, "o2");

    let m_first = ctx.resolve_target("first orc");
    assert_eq!(m_first.len(), 1);
    assert_eq!(m_first[0].key, "o1");

    assert_eq!(ctx.resolve_target("orc1").len(), 0);
    assert_eq!(ctx.resolve_target("firstorc").len(), 0);

    let m3 = ctx.resolve_target("goblin 1");
    assert_eq!(m3.len(), 1);
    assert_eq!(m3[0].key, "g1");

    let m4 = ctx.resolve_target("first goblin");
    assert_eq!(m4.len(), 1);
    assert_eq!(m4[0].key, "g1");

    assert_eq!(ctx.resolve_target("goblin 2").len(), 0);
}

#[test]
fn test_resolve_target_unicode_optimizations() {
    let mut w1 = TemplateEntity::new("w1", "Ängry Wölf", Gender::Neutral, false, false);
    w1.alias_words = Some(vec!["Grümpy Bëast".to_string()]);
    let mut w2 = TemplateEntity::new("w2", "Ängry Wölf", Gender::Neutral, false, false);
    w2.alias_words = Some(vec![]);
    let mut o1 = TemplateEntity::new("o1", "Mÿstïc Ørc", Gender::Neutral, false, false);
    o1.alias_words = Some(vec![]);
    let mut ctx = RenderContext::new("viewer")
        .with_entity("w1", &w1)
        .with_entity("w2", &w2)
        .with_entity("o1", &o1);

    render("{A:w1}, {a:w2}, and {a:o1} arrive.", &mut ctx).unwrap();

    assert_eq!(ctx.resolve_target("angry wolf").len(), 2);

    let m_orc = ctx.resolve_target("MYSTIC ORC");
    assert_eq!(m_orc.len(), 1);
    assert_eq!(m_orc[0].key, "o1");

    assert_eq!(ctx.resolve_target("The angry wolf").len(), 2);

    let m3 = ctx.resolve_target("grumpy beast");
    assert_eq!(m3.len(), 1);
    assert_eq!(m3[0].key, "w1");

    let m4 = ctx.resolve_target("first angry wolf");
    assert_eq!(m4.len(), 1);
    assert_eq!(m4[0].key, "w1");

    let m5 = ctx.resolve_target("ANGRY WOLF 2");
    assert_eq!(m5.len(), 1);
    assert_eq!(m5[0].key, "w2");
}

#[test]
fn test_definite_description_upgrade() {
    let wolf1 = wolf("mob_1");
    let mut ctx = RenderContext::new("char_1").with_entity("source", &wolf1);
    assert_eq!(
        render("{A:source} [source:walk] in. {A:source} [source:howl].", &mut ctx).unwrap(),
        "A wolf walks in. The wolf howls."
    );
}

#[test]
fn test_definite_description_upgrade_collision() {
    let wolf1 = wolf("mob_1");
    let wolf2 = wolf("mob_2");
    let mut ctx = RenderContext::new("char_1").with_entity("source", &wolf1).with_entity("other", &wolf2);
    assert_eq!(
        render("{A:source} [source:walk] in. {A:other} [other:walk] in. {A:source} [source:howl].", &mut ctx).unwrap(),
        "A wolf walks in. Another wolf walks in. The first wolf howls."
    );
}

#[test]
fn test_definite_description_upgrade_plural() {
    let wolves = mob("mob_1", "wolves", Gender::Plural, false);
    let mut ctx = RenderContext::new("char_1").with_entity("source", &wolves);
    assert_eq!(
        render("{A:source} [source:approach]. {A:source} [source:howl].", &mut ctx).unwrap(),
        "Some wolves approach. The wolves howl."
    );
}

#[test]
fn test_suppress_anaphora_upgrades() {
    let wolf1 = wolf("mob_1");
    let wolf2 = wolf("mob_2");

    let mut ctx1 = RenderContext::new("char_1").with_entity("source", &wolf1);
    assert_eq!(
        render("{A:source} [source:walk] in. {!A:source} [source:howl].", &mut ctx1).unwrap(),
        "A wolf walks in. A wolf howls."
    );

    let mut ctx2 = RenderContext::new("char_1").with_entity("source", &wolf1).with_entity("other", &wolf2);
    assert_eq!(
        render(
            "{A:source} [source:walk] in. {A:other} [other:walk] in. {source:!Subj} [source:howl].",
            &mut ctx2
        )
        .unwrap(),
        "A wolf walks in. Another wolf walks in. It howls."
    );
}

#[test]
fn test_definite_description_synergy_with_pronouns() {
    let goblin = mob("mob_1", "goblin", Gender::Neutral, false);
    let mut ctx = RenderContext::new("char_1").with_entity("source", &goblin);
    assert_eq!(
        render("{A:source} [source:arrive]. {source:Subj} [source:wait]. {A:source} [source:attack]!", &mut ctx).unwrap(),
        "A goblin arrives. It waits. The goblin attacks!"
    );
}

#[test]
fn test_definite_description_upgrade_with_possessives() {
    let goblin = mob("mob_1", "goblin", Gender::Neutral, false);
    let mut ctx = RenderContext::new("char_1").with_entity("source", &goblin);
    assert_eq!(
        render("{A:source's} sword [source:fall]. {A:source's} shield [source:break].", &mut ctx).unwrap(),
        "A goblin's sword falls. The goblin's shield breaks."
    );
}

#[test]
fn test_definite_description_viewer_suppression() {
    let player = mob("char_1", "Aldran", Gender::Male, true);
    let mut ctx = RenderContext::new("char_1").with_entity("source", &player);
    assert_eq!(render("{A:source} [source:walk]. {A:source} [source:run].", &mut ctx).unwrap(), "You walk. You run.");
}

#[test]
fn test_definite_description_upgrade_with_nested_properties() {
    let rusty_sword = TemplateEntity::new("sword_1", "rusty sword", Gender::Neutral, false, false);
    let goblin = mob("mob_1", "goblin", Gender::Neutral, false);
    let mut ctx = RenderContext::new("char_1").with_entity("source", &goblin).with_entity("weapon", &rusty_sword);
    assert_eq!(
        render("{A:source} [source:draw] {a:weapon}. {A:weapon} [weapon:be] sharp.", &mut ctx).unwrap(),
        "A goblin draws a rusty sword. The rusty sword is sharp."
    );
}

#[test]
fn test_singular_overrides() {
    let orcs = mob("mob_1", "orcs", Gender::Plural, false);
    let goblin = mob("mob_2", "goblin", Gender::Neutral, false);

    let mut ctx1 = RenderContext::new("viewer").with_entity("orcs", &orcs);
    assert_eq!(
        render("{One of the:orcs} [-orcs:bellow], and {-orcs:subj} [-orcs:charge]!", &mut ctx1).unwrap(),
        "One of the orcs bellows, and it charges!"
    );

    let mut ctx2 = RenderContext::new("viewer").with_entity("orcs", &orcs).with_entity("goblin", &goblin);
    assert_eq!(
        render("{One of the:orcs} and {a:goblin} arrive. {-orcs:Subj} [-orcs:bellow].", &mut ctx2).unwrap(),
        "One of the orcs and a goblin arrive. One of the orcs bellows."
    );
}

#[test]
fn test_singular_override_tenses_and_stances() {
    let orcs = mob("mob_orcs", "orcs", Gender::Plural, false);
    let text = "{-orcs:Subj} [-orcs:charge].";

    let director = |tense: Tense| RenderContext::new("viewer").with_entity("orcs", &orcs).with_tense(tense);
    assert_eq!(render(text, &mut director(Tense::Present)).unwrap(), "One of the orcs charges.");
    assert_eq!(render(text, &mut director(Tense::Past)).unwrap(), "One of the orcs charged.");
    assert_eq!(render(text, &mut director(Tense::Future)).unwrap(), "One of the orcs will charge.");

    let actor = |tense: Tense| {
        RenderContext::new("mob_orcs")
            .with_stance(ActorStance::FirstPerson)
            .with_entity("orcs", &orcs)
            .with_tense(tense)
    };
    assert_eq!(render(text, &mut actor(Tense::Present)).unwrap(), "I charge.");
    assert_eq!(render(text, &mut actor(Tense::Past)).unwrap(), "I charged.");
    assert_eq!(render("{orcs:Subj} [orcs:charge].", &mut actor(Tense::Present)).unwrap(), "We charge.");
}

#[test]
fn test_singular_override_ambiguity_and_possessives() {
    let orcs = mob("mob_orcs", "orcs", Gender::Plural, false);
    let goblin = mob("mob_goblin", "goblin", Gender::Neutral, false);
    let mut ctx = RenderContext::new("viewer").with_entity("orcs", &orcs).with_entity("goblin", &goblin);

    assert_eq!(
        render("{A:goblin} snarls. {-orcs:Subj} [-orcs:draw] {-orcs:poss} blade!", &mut ctx).unwrap(),
        "A goblin snarls. One of the orcs draws its blade!"
    );

    ctx.clear_anaphora();
    assert_eq!(
        render("{A:goblin} snarls at {-orcs:obj} and steals {!-orcs:poss} blade!", &mut ctx).unwrap(),
        "A goblin snarls at one of the orcs and steals its blade!"
    );
}

#[test]
fn test_singular_override_forced_conjugation_and_lookahead() {
    let orcs = mob("mob_orcs", "orcs", Gender::Plural, false);
    let text = "{-orcs:Subj} [-orcs:be|am|are|is] here. {-orcs:Subj} [-orcs:have|have|have|has] arrived!";

    let mut ctx = RenderContext::new("viewer").with_entity("orcs", &orcs).with_lookahead(true);
    assert_eq!(render(text, &mut ctx).unwrap(), "One of the orcs is here. It has arrived!");

    let mut future = RenderContext::new("viewer")
        .with_entity("orcs", &orcs)
        .with_lookahead(true)
        .with_tense(Tense::Future);
    assert_eq!(render(text, &mut future).unwrap(), "One of the orcs will be here. It will have arrived!");
}

#[test]
fn test_lookahead_prevents_silent_bob() {
    let w1 = configurable("w1", "wolf", Some("large wolf"), Gender::Neutral);
    let w2 = configurable("w2", "wolf", None, Gender::Neutral);
    let mut ctx = RenderContext::new("viewer").with_entity("w1", &w1).with_entity("w2", &w2).with_lookahead(true);
    assert_eq!(render("{A:w1} howls.", &mut ctx).unwrap(), "A wolf howls.");
}

#[test]
fn test_article_upgrades_for_plural_viewers() {
    let wolves = mob("pack_1", "wolves", Gender::Plural, false);
    let mut ctx = RenderContext::new("pack_1").with_stance(ActorStance::FirstPerson).with_entity("source", &wolves);
    assert_eq!(render("{A:source} [source:howl].", &mut ctx).unwrap(), "We howl.");
    assert_eq!(render("{Some:source} [source:howl].", &mut ctx).unwrap(), "We howl.");
    assert_eq!(render("{One of the:source} [source:howl].", &mut ctx).unwrap(), "We howl.");
    assert_eq!(render("{-source} [-source:howl].", &mut ctx).unwrap(), "I howl.");
}

#[test]
fn test_plural_ordinals_and_demonstratives() {
    let w1 = configurable("w1", "wolves", None, Gender::Plural);
    let w2 = configurable("w2", "wolves", None, Gender::Plural);
    let w3 = configurable("w3", "wolves", None, Gender::Plural);
    let mut ctx = RenderContext::new("viewer").with_entity("w1", &w1).with_entity("w2", &w2).with_entity("w3", &w3);

    assert_eq!(
        render("{A:w1} arrive. {A:w2} arrive. {A:w3} arrive.", &mut ctx).unwrap(),
        "Some wolves arrive. A second set of wolves arrive. A third set of wolves arrive."
    );
    assert_eq!(
        render("{This:w1} howl. {That:w2} howl.", &mut ctx).unwrap(),
        "This first set of wolves howl. That second set of wolves howl."
    );
    assert_eq!(
        render("{One of the:w1} howls. {Some:w2} howl.", &mut ctx).unwrap(),
        "One of the first set of wolves howls. A second set of wolves howl."
    );
}

#[test]
fn test_plural_ordinals_with_collective_noun() {
    let pack = |id: &str| {
        let mut e = TemplateEntity::new(id, "wolves", Gender::Plural, true, false);
        e.collective = Some("pack".to_string());
        e
    };
    let p1 = pack("p1");
    let p2 = pack("p2");
    let p3 = pack("p3");
    let mut ctx = RenderContext::new("viewer").with_entity("p1", &p1).with_entity("p2", &p2).with_entity("p3", &p3);
    assert_eq!(
        render("{A:p1} arrive. {A:p2} arrive. {A:p3} arrive.", &mut ctx).unwrap(),
        "Some wolves arrive. A second pack of wolves arrive. A third pack of wolves arrive."
    );
}

#[test]
fn test_no_smart_modifier_bypasses_ordinals() {
    let w1 = configurable("w1", "wolf", None, Gender::Neutral);
    let w2 = configurable("w2", "wolf", None, Gender::Neutral);
    let w3 = configurable("w3", "wolf", None, Gender::Neutral);
    let mut ctx = RenderContext::new("viewer").with_entity("w1", &w1).with_entity("w2", &w2).with_entity("w3", &w3);
    assert_eq!(
        render("{!A:w1}, {!another:w2}, and {!a:w3} arrive.", &mut ctx).unwrap(),
        "A wolf, another wolf, and a wolf arrive."
    );
    assert_eq!(render("{!The:w1} howls.", &mut ctx).unwrap(), "The wolf howls.");
}

#[test]
fn test_nested_properties_returning_group_entities() {
    let minions = mud_perspective::models::GroupEntity::new(vec![
        mob("m1", "goblin", Gender::Neutral, false),
        mob("m2", "slime", Gender::Neutral, false),
    ])
    .into_entity("minions");
    let mut boss = TemplateEntity::new("boss_1", "boss", Gender::Male, false, false);
    boss.properties.push(("minions".to_string(), minions));
    let mut ctx = RenderContext::new("viewer").with_entity("boss", &boss);
    assert_eq!(
        render("{The:boss.minions} [boss.minions:attack]!", &mut ctx).unwrap(),
        "The goblin and the slime attack!"
    );
}

#[test]
fn test_singular_override_reflexive_pronouns() {
    let orcs = mob("mob_1", "orcs", Gender::Plural, false);
    let mut ctx = RenderContext::new("viewer").with_entity("orcs", &orcs);
    let _ = render("{The:orcs} are here.", &mut ctx).unwrap();
    assert_eq!(render("{orcs:Subj} [orcs:hurt] {orcs:reflex}.", &mut ctx).unwrap(), "They hurt themselves.");
    assert_eq!(render("{-orcs:Subj} [-orcs:hurt] {-orcs:reflex}.", &mut ctx).unwrap(), "It hurts itself.");
}

#[test]
fn test_resolve_target_ordinals_with_sub_elements() {
    let mut orc1 = TemplateEntity::new("orc_1", "orc", Gender::Male, false, false);
    orc1.properties.push(("sword".to_string(), TemplateEntity::new("sword_1", "rusty sword", Gender::Neutral, false, false)));
    let orc2 = TemplateEntity::new("orc_2", "orc", Gender::Male, false, false);
    let mut ctx = RenderContext::new("viewer").with_entity("o1", &orc1).with_entity("o2", &orc2);

    render("{A:o1} and {a:o2} arrive.", &mut ctx).unwrap();

    let m1 = ctx.resolve_target("the first orc's sword");
    assert_eq!(m1.len(), 1);
    assert_eq!(m1[0].key, "o1");
    assert_eq!(m1[0].path_uncertain, false);

    let m2 = ctx.resolve_target("the second orc's sword");
    assert_eq!(m2.len(), 1);
    assert_eq!(m2[0].key, "o2");
    assert_eq!(m2[0].path_uncertain, true);
}

#[test]
fn test_trailing_apostrophe_in_template_tag() {
    let wolves = mob("mob_1", "wolves", Gender::Plural, false);
    let boss = mob("mob_2", "boss", Gender::Neutral, false);
    let mut ctx = RenderContext::new("viewer").with_entity("wolves", &wolves).with_entity("boss", &boss);
    assert_eq!(render("You hear {the:wolves'} howls.", &mut ctx).unwrap(), "You hear the wolves' howls.");
    assert_eq!(render("You take {the:boss'} gold.", &mut ctx).unwrap(), "You take the boss's gold.");
}
