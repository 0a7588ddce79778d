use mud_perspective::models::{Gender, GroupEntity, RenderContext, TemplateEntity};

/// A plain entity that is the viewer with its own id, sees itself as "you", and that a
/// stranger sees under a disguise.
fn mock(id: &str, name: &str, gender: Gender, is_plural: bool, is_proper_noun: bool) -> TemplateEntity {
    let mut e = TemplateEntity::new(id, name, gender, is_plural, is_proper_noun);
    e.viewer_ids.push(id.to_string());
    e.names_for.push((id.to_string(), "you".to_string()));
    if name == "Aldran" {
        e.names_for.push(("stranger_1".to_string(), "tall man".to_string()));
        e.proper_noun_for.push(("stranger_1".to_string(), false));
    }
    if name == "the Avengers" {
        e.names_for.push(("stranger_1".to_string(), "masked heroes".to_string()));
        e.proper_noun_for.push(("stranger_1".to_string(), false));
    }
    e
}

/// An entity with an optional long description, plural exactly when its gender is.
fn configurable(id: &str, name: &str, long_name: Option<&str>, gender: Gender) -> TemplateEntity {
    let mut e = TemplateEntity::new(id, name, gender, gender == Gender::Plural, false);
    e.viewer_ids.push(id.to_string());
    e.long_name = long_name.map(|s| s.to_string());
    e
}

/// An entity that is nobody's viewer, with properties.
fn thing(id: &str, name: &str, gender: Gender, is_proper_noun: bool) -> TemplateEntity {
    TemplateEntity::new(id, name, gender, false, is_proper_noun)
}

#[test]
fn test_resolve_target_pronouns() {
    let player = mock("char_1", "Aldran", Gender::Male, false, true);
    let goblin = mock("mob_1", "goblin", Gender::Neutral, false, false);
    let wolves = mock("mob_2", "wolves", Gender::Plural, true, false);

    let ctx = RenderContext::new("char_1")
        .with_entity("player", &player)
        .with_entity("goblin", &goblin)
        .with_entity("wolves", &wolves)
        .with_last_mentioned("player")
        .with_last_mentioned("goblin")
        .with_last_mentioned("wolves");

    let matches = ctx.resolve_target("me");
    assert_eq!(matches.len(), 1);
    assert_eq!(matches[0].key, "player");

    let matches = ctx.resolve_target("you");
    assert_eq!(matches.len(), 1);
    assert_eq!(matches[0].key, "player");

    let matches = ctx.resolve_target("it");
    assert_eq!(matches.len(), 1);
    assert_eq!(matches[0].key, "goblin");

    let matches = ctx.resolve_target("them");
    assert_eq!(matches.len(), 1);
    assert_eq!(matches[0].key, "wolves");
}

#[test]
fn test_resolve_target_sub_elements() {
    let mut player = thing("aldran_actor", "Aldran", Gender::Male, true);
    player.viewer_ids.push("char_1".to_string());
    player
        .properties
        .push(("sword".to_string(), thing("aldran_sword", "rusty sword", Gender::Neutral, false)));

    let ctx = RenderContext::new("char_2").with_entity("aldran", &player);

    let matches = ctx.resolve_target("Aldran's sword");
    assert_eq!(matches.len(), 1);
    assert_eq!(matches[0].key, "aldran");
    assert_eq!(matches[0].path.as_deref(), Some("sword"));
    assert_eq!(matches[0].path_uncertain, false);
    assert_eq!(
        matches[0].resolve_deep_entity().unwrap().display_name_for("viewer"),
        "rusty sword"
    );

    let matches2 = ctx.resolve_target("Aldran's shield");
    assert_eq!(matches2.len(), 1);
    assert_eq!(matches2[0].key, "aldran");
    assert_eq!(matches2[0].path.as_deref(), Some("shield"));
    assert_eq!(matches2[0].path_uncertain, true);
    assert!(matches2[0].resolve_deep_entity().is_none());

    let ctx = ctx.with_last_mentioned("aldran");
    let matches3 = ctx.resolve_target("his sword");
    assert_eq!(matches3.len(), 1);
    assert_eq!(matches3[0].key, "aldran");
    assert_eq!(matches3[0].path.as_deref(), Some("sword"));
    assert_eq!(matches3[0].path_uncertain, false);
}

#[test]
fn test_resolve_target_nested_sub_elements() {
    let mut sword = thing("aldran_sword", "rusty sword", Gender::Neutral, false);
    sword
        .properties
        .push(("hilt".to_string(), thing("aldran_hilt", "leather hilt", Gender::Neutral, false)));
    let mut player = thing("aldran_actor", "Aldran", Gender::Male, true);
    player.viewer_ids.push("char_1".to_string());
    player.properties.push(("sword".to_string(), sword));

    let ctx = RenderContext::new("char_2").with_entity("aldran", &player);

    let matches = ctx.resolve_target("Aldran's sword's hilt");
    assert_eq!(matches.len(), 1);
    assert_eq!(matches[0].key, "aldran");
    assert_eq!(matches[0].path.as_deref(), Some("sword.hilt"));
    assert_eq!(matches[0].path_uncertain, false);
    assert_eq!(
        matches[0].resolve_deep_entity().unwrap().display_name_for("viewer"),
        "leather hilt"
    );

    let ctx2 = ctx.with_last_mentioned("aldran");
    let matches2 = ctx2.resolve_target("his sword's hilt");
    assert_eq!(matches2.len(), 1);
    assert_eq!(matches2[0].key, "aldran");
    assert_eq!(matches2[0].path.as_deref(), Some("sword.hilt"));
    assert_eq!(matches2[0].path_uncertain, false);
    assert_eq!(
        matches2[0].resolve_deep_entity().unwrap().display_name_for("viewer"),
        "leather hilt"
    );

    let matches3 = ctx2.resolve_target("his sword's gem");
    assert_eq!(matches3.len(), 1);
    assert_eq!(matches3[0].key, "aldran");
    assert_eq!(matches3[0].path.as_deref(), Some("sword.gem"));
    assert_eq!(matches3[0].path_uncertain, true);
    assert!(matches3[0].resolve_deep_entity().is_none());
}

#[test]
fn test_resolve_target_strip_articles() {
    let orcs = mock("mob_1", "orcs", Gender::Plural, true, false);
    let ctx = RenderContext::new("viewer").with_entity("orcs", &orcs);

    let matches = ctx.resolve_target("one of the orcs");
    assert_eq!(matches.len(), 1);
    assert_eq!(matches[0].key, "orcs");

    let matches = ctx.resolve_target("some orcs");
    assert_eq!(matches.len(), 1);
    assert_eq!(matches[0].key, "orcs");
}

#[test]
fn test_resolve_target_entity_names_with_articles() {
    let avengers = mock("char_1", "the Avengers", Gender::Plural, true, true);
    let shiny_key = mock("item_1", "a shiny key", Gender::Neutral, false, false);

    let ctx = RenderContext::new("viewer")
        .with_entity("avengers", &avengers)
        .with_entity("key", &shiny_key);

    let m1 = ctx.resolve_target("avengers");
    assert_eq!(m1.len(), 1);
    assert_eq!(m1[0].key, "avengers");

    let m2 = ctx.resolve_target("the avengers");
    assert_eq!(m2.len(), 1);
    assert_eq!(m2[0].key, "avengers");

    let m3 = ctx.resolve_target("shiny key");
    assert_eq!(m3.len(), 1);
    assert_eq!(m3[0].key, "key");

    let m4 = ctx.resolve_target("the shiny key");
    assert_eq!(m4.len(), 1);
    assert_eq!(m4[0].key, "key");
}

#[test]
fn test_resolve_target_long_descriptions() {
    let wolf_normal = configurable("w1", "wolf", None, Gender::Neutral);
    let wolf_dire = configurable("w2", "wolf", Some("dire wolf"), Gender::Neutral);

    let ctx = RenderContext::new("viewer")
        .with_entity("w1", &wolf_normal)
        .with_entity("w2", &wolf_dire);

    let matches_short = ctx.resolve_target("wolf");
    assert_eq!(matches_short.len(), 2);

    let matches_long = ctx.resolve_target("dire wolf");
    assert_eq!(matches_long.len(), 1);
    assert_eq!(matches_long[0].key, "w2");

    let matches_long_art = ctx.resolve_target("the dire wolf");
    assert_eq!(matches_long_art.len(), 1);
    assert_eq!(matches_long_art[0].key, "w2");
}

#[test]
fn test_resolve_target_group_entities() {
    let p1 = mock("char_1", "Aldran", Gender::Male, false, true);
    let p2 = mock("char_2", "Bob", Gender::Male, false, true);

    let party = GroupEntity::new(vec![p1, p2]).into_entity("party_group");

    let ctx = RenderContext::new("viewer")
        .with_entity("party", &party)
        .with_last_mentioned("party");

    let m1 = ctx.resolve_target("them");
    assert_eq!(m1.len(), 1);
    assert_eq!(m1[0].key, "party");

    let m2 = ctx.resolve_target("Aldran and Bob");
    assert_eq!(m2.len(), 1);
    assert_eq!(m2[0].key, "party");
}

/// A male proper-noun actor with aliases.
fn alias_actor(id: &str, name: &str, aliases: &[&str]) -> TemplateEntity {
    let mut e = thing(id, name, Gender::Male, true);
    e.alias_words = Some(aliases.iter().map(|a| a.to_string()).collect());
    e
}

#[test]
fn test_resolve_target_aliases() {
    let boss = alias_actor("boss_actor", "Lord Aldran", &["Aldran", "the dark lord", "boss"]);
    let ctx = RenderContext::new("viewer").with_entity("boss", &boss);

    assert_eq!(ctx.resolve_target("lord aldran").len(), 1);
    assert_eq!(ctx.resolve_target("aldran").len(), 1);
    assert_eq!(ctx.resolve_target("dark lord").len(), 1);
    assert_eq!(ctx.resolve_target("boss").len(), 1);
    assert_eq!(ctx.resolve_target("the boss").len(), 1);
    assert_eq!(ctx.resolve_target("king").len(), 0);
    assert_eq!(ctx.resolve_target("dark").len(), 0);
    assert_eq!(ctx.resolve_target("lord").len(), 0);
    assert_eq!(ctx.resolve_target("the dark").len(), 0);
}

#[test]
fn test_group_entity_aliases() {
    let boss = alias_actor("boss_actor", "Lord Aldran", &["Aldran", "the dark lord", "boss"]);
    let group = GroupEntity::new(vec![boss]).into_entity("group_entity");
    let ctx = RenderContext::new("viewer").with_entity("group", &group);

    assert_eq!(ctx.resolve_target("dark lord").len(), 1);
    assert_eq!(ctx.resolve_target("dark lord")[0].key, "group");
}

#[test]
fn test_resolve_target_ambiguous_multiple_matches() {
    let mut guard1 = thing("guard_1", "tall guard", Gender::Male, false);
    guard1.alias_words = Some(vec!["guard".to_string(), "watchman".to_string()]);
    let mut guard2 = thing("guard_2", "short guard", Gender::Male, false);
    guard2.alias_words = Some(vec!["guard".to_string(), "patrol".to_string()]);

    let ctx = RenderContext::new("viewer")
        .with_entity("g1", &guard1)
        .with_entity("g2", &guard2)
        .with_last_mentioned("g1")
        .with_last_mentioned("g2");

    let matches_pro = ctx.resolve_target("him");
    assert_eq!(matches_pro.len(), 2);

    let matches_alias = ctx.resolve_target("the guard");
    assert_eq!(matches_alias.len(), 2);

    let matches_unambig = ctx.resolve_target("the watchman");
    assert_eq!(matches_unambig.len(), 1);
    assert_eq!(matches_unambig[0].key, "g1");
}

/// A male mob with an optional sword.
fn mob(id: &str, name: &str, sword: Option<&str>) -> TemplateEntity {
    let mut e = thing(id, name, Gender::Male, false);
    if let Some(s) = sword {
        let sword_id = format!("{}_sword", id);
        e.properties.push(("sword".to_string(), thing(&sword_id, s, Gender::Neutral, false)));
    }
    e
}

#[test]
fn test_resolve_target_ambiguous_sub_elements() {
    let guard1 = mob("guard_1", "guard", Some("iron sword"));
    let guard2 = mob("guard_2", "guard", Some("steel sword"));
    let thief1 = mob("thief_1", "thief", None);
    let thief2 = mob("thief_2", "thief", None);
    let orc1 = mob("orc_1", "orc", Some("rusty sword"));
    let orc2 = mob("orc_2", "orc", None);

    let ctx = RenderContext::new("viewer")
        .with_entity("g1", &guard1)
        .with_entity("g2", &guard2)
        .with_entity("t1", &thief1)
        .with_entity("t2", &thief2)
        .with_entity("o1", &orc1)
        .with_entity("o2", &orc2);

    let mut m_guard = ctx.resolve_target("the guard's sword");
    assert_eq!(m_guard.len(), 2);
    m_guard.sort_by_key(|m| m.key.clone());
    assert_eq!(m_guard[0].key, "g1");
    assert_eq!(m_guard[0].path_uncertain, false);
    assert_eq!(m_guard[1].key, "g2");
    assert_eq!(m_guard[1].path_uncertain, false);

    let mut m_thief = ctx.resolve_target("the thief's sword");
    assert_eq!(m_thief.len(), 2);
    m_thief.sort_by_key(|m| m.key.clone());
    assert_eq!(m_thief[0].key, "t1");
    assert_eq!(m_thief[0].path_uncertain, true);
    assert_eq!(m_thief[1].key, "t2");
    assert_eq!(m_thief[1].path_uncertain, true);

    let mut m_orc = ctx.resolve_target("the orc's sword");
    assert_eq!(m_orc.len(), 2);
    m_orc.sort_by_key(|m| m.key.clone());
    assert_eq!(m_orc[0].key, "o1");
    assert_eq!(m_orc[0].path_uncertain, false);
    assert_eq!(m_orc[1].key, "o2");
    assert_eq!(m_orc[1].path_uncertain, true);
}

#[test]
fn test_resolve_target_strict() {
    let orc1 = mob("orc_1", "orc", Some("rusty sword"));
    let orc2 = mob("orc_2", "orc", None);

    let ctx = RenderContext::new("viewer")
        .with_entity("o1", &orc1)
        .with_entity("o2", &orc2);

    assert_eq!(ctx.resolve_target("the orc's sword").len(), 2);

    let m_strict = ctx.resolve_target_strict("the orc's sword");
    assert_eq!(m_strict.len(), 1);
    assert_eq!(m_strict[0].key, "o1");
    assert_eq!(m_strict[0].path_uncertain, false);
}

#[test]
fn test_resolve_target_strict_diacritics() {
    let w1 = thing("unicode_mob", "Ängry Wölf", Gender::Neutral, false);

    let ctx = RenderContext::new("viewer")
        .with_entity("w1", &w1)
        .with_strict_diacritics(true);

    assert_eq!(ctx.resolve_target("ängry wölf").len(), 1);
    assert_eq!(ctx.resolve_target("angry wolf").len(), 0);
}

/// A male proper-noun actor that is viewer "char_1" and carries a sword.
fn armed_actor(id: &str, name: &str, weapon: &str, viewer: Option<&str>, props: &[&str]) -> TemplateEntity {
    let mut e = thing(id, name, Gender::Male, true);
    if let Some(v) = viewer {
        e.viewer_ids.push(v.to_string());
    }
    for p in props {
        let weapon_id = format!("{}_weapon", id);
        e.properties.push((p.to_string(), thing(&weapon_id, weapon, Gender::Neutral, false)));
    }
    e
}

#[test]
fn test_resolve_target_smart_quotes_and_spaces() {
    let player = armed_actor("actor_aldran", "Aldran", "rusty sword", Some("char_1"), &["sword"]);
    let robot = armed_actor("actor_robot", "Robot 5", "laser sword", Some("char_1"), &["sword"]);

    let ctx = RenderContext::new("char_2")
        .with_entity("aldran", &player)
        .with_entity("robot", &robot);

    let m1 = ctx.resolve_target("Aldran\u{2019}s sword");
    assert_eq!(m1[0].path.as_deref(), Some("sword"));

    let m2 = ctx.resolve_target("Aldran 's sword");
    assert_eq!(m2.len(), 0);

    let m3 = ctx.resolve_target("Aldran's   sword");
    assert_eq!(m3[0].path.as_deref(), Some("sword"));

    let m4 = ctx.resolve_target("Robot 5's sword");
    assert_eq!(m4[0].key, "robot");
}

#[test]
fn test_resolve_target_possessive_ending_in_s() {
    let lucas = armed_actor("actor_lucas", "Lucas", "rusty sword", None, &["sword", "claws"]);
    let wolves = armed_actor("actor_wolves", "wolves", "sharp claws", None, &["sword", "claws"]);

    let ctx = RenderContext::new("viewer")
        .with_entity("lucas", &lucas)
        .with_entity("wolves", &wolves);

    let m1 = ctx.resolve_target("Lucas' sword");
    assert_eq!(m1.len(), 1);
    assert_eq!(m1[0].key, "lucas");
    assert_eq!(m1[0].path.as_deref(), Some("sword"));

    let m2 = ctx.resolve_target("Lucas's sword");
    assert_eq!(m2.len(), 1);
    assert_eq!(m2[0].key, "lucas");
    assert_eq!(m2[0].path.as_deref(), Some("sword"));

    let m3 = ctx.resolve_target("the wolves' claws");
    assert_eq!(m3.len(), 1);
    assert_eq!(m3[0].key, "wolves");
    assert_eq!(m3[0].path.as_deref(), Some("claws"));

    let m4 = ctx.resolve_target("the wolves'");
    assert_eq!(m4.len(), 0);

    let m5 = ctx.resolve_target("the wolves.");
    assert_eq!(m5.len(), 1);

    let m6 = ctx.resolve_target("Lucas'");
    assert_eq!(m6.len(), 0);
    assert_eq!(ctx.resolve_target("Lucas's").len(), 0);
}
