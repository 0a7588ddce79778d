use mud_perspective::engine::{
    assign_ordinal, is_pronoun_ambiguous, PerspectiveEngine,
    is_sub_property_path, resolve_display_name, try_adjective_disambiguation, update_memory,
    viewer_name, EntityRefParams, PronounContextFlags, ViewerNameFlags,
};
use mud_perspective::grammar::{
    conjugate_verb, force_add_irregular_verb, number_to_ordinal_word, push_capitalized_if,
    remove_irregular_verb, resolve_article, ArticleFlags, VerbDictionary,
};
use mud_perspective::groups::{
    determine_group_singular_gender, format_group_viewer_suffix, render_group_entity,
};
use mud_perspective::keymap::KeyMap;
use mud_perspective::models::{ActorStance, Gender, RenderContext, TemplateEntity, Tense};
use mud_perspective::parser::TagFlags;

fn being(id: &str, name: &str, gender: Gender, is_plural: bool) -> TemplateEntity {
    let mut e = TemplateEntity::new(id, name, gender, is_plural, false);
    e.viewer_ids.push(id.to_string());
    e
}

fn params(key: &str) -> EntityRefParams<'_> {
    EntityRefParams {
        key,
        article: None,
        p_type: None,
        owner_key: None,
        owner_flags: TagFlags::empty(),
        adjectives: None,
        flags: TagFlags::empty(),
        ordinal: None,
    }
}

#[test]
fn viewer_words_follow_the_stance() {
    let plain = ViewerNameFlags { is_plural: false, is_possessive: false, is_capitalized: false, is_obj: false };
    assert_eq!(viewer_name(ActorStance::SecondPerson, plain), "you");
    assert_eq!(viewer_name(ActorStance::FirstPerson, plain), "I");
    assert_eq!(viewer_name(ActorStance::FirstPerson, ViewerNameFlags { is_possessive: true, is_capitalized: true, ..plain }), "My");
    assert_eq!(viewer_name(ActorStance::FirstPerson, ViewerNameFlags { is_plural: true, is_obj: true, ..plain }), "us");
    assert_eq!(viewer_name(ActorStance::SecondPerson, ViewerNameFlags { is_possessive: true, ..plain }), "your");
    assert_eq!(viewer_name(ActorStance::ThirdPerson, plain), "");
}

#[test]
fn possessive_endings_follow_plurality() {
    assert_eq!(PerspectiveEngine::get_possessive_suffix("wolves", true), "'");
    assert_eq!(PerspectiveEngine::get_possessive_suffix("wolves", false), "'s");
    assert_eq!(PerspectiveEngine::get_possessive_suffix("BOSSES  ", true), "'");
    assert_eq!(PerspectiveEngine::get_possessive_suffix("children", true), "'s");
    assert_eq!(PerspectiveEngine::get_last_visible_char("hello  \n"), Some('o'));
    assert_eq!(PerspectiveEngine::get_last_visible_char("   "), None);
}

#[test]
fn property_paths_and_memory_slots() {
    assert!(is_sub_property_path("source", "source.weapon"));
    assert!(!is_sub_property_path("source", "sourcery"));
    assert!(!is_sub_property_path("source", "source"));
    let mut slot: Option<String> = None;
    update_memory(&mut slot, "goblin");
    assert_eq!(slot, Some("goblin".to_string()));
    update_memory(&mut slot, "wolf");
    assert_eq!(slot, Some("wolf".to_string()));
}

#[test]
fn ordinals_are_kept_while_names_collide() {
    let mut ctx = RenderContext::new("char_1");
    assert_eq!(assign_ordinal(&mut ctx, "goblin", "g1", true), Some(1));
    assert_eq!(assign_ordinal(&mut ctx, "goblin", "g2", true), Some(2));
    assert_eq!(assign_ordinal(&mut ctx, "goblin", "g1", true), Some(1));
    assert_eq!(assign_ordinal(&mut ctx, "wolf", "w1", true), Some(1));
    assert_eq!(assign_ordinal(&mut ctx, "goblin", "g3", false), None);
    assert_eq!(assign_ordinal(&mut ctx, "goblin", "g2", true), Some(2));
}

#[test]
fn a_unique_name_is_kept_without_ordinal() {
    let goblin = being("mob_1", "goblin", Gender::Neutral, false);
    let wolf = being("mob_2", "wolf", Gender::Neutral, false);
    let mut ctx = RenderContext::new("char_1").with_entity("goblin", &goblin).with_entity("wolf", &wolf).with_last_mentioned("wolf");
    let future: Vec<&str> = Vec::new();
    let pre: KeyMap<&TemplateEntity> = KeyMap::new();
    let (name, ordinal) = resolve_display_name(&mut ctx, &goblin, &params("goblin"), "char_1", &future, &pre);
    assert_eq!(name, "goblin");
    assert_eq!(ordinal, None);
}

#[test]
fn colliding_names_get_ordinals() {
    let g1 = being("mob_1", "goblin", Gender::Neutral, false);
    let g2 = being("mob_2", "goblin", Gender::Neutral, false);
    let mut ctx = RenderContext::new("char_1").with_entity("g1", &g1).with_entity("g2", &g2).with_last_mentioned("g2");
    let future: Vec<&str> = Vec::new();
    let pre: KeyMap<&TemplateEntity> = KeyMap::new();
    let (name, ordinal) = resolve_display_name(&mut ctx, &g1, &params("g1"), "char_1", &future, &pre);
    assert_eq!(name, "goblin");
    assert_eq!(ordinal, Some(1));
    let (name, ordinal) = resolve_display_name(&mut ctx, &g1, &params("g1"), "char_1", &future, &pre);
    assert_eq!(name, "goblin");
    assert_eq!(ordinal, Some(1));

    let mut smart_off = params("g1");
    smart_off.flags.no_smart = true;
    let (name, ordinal) = resolve_display_name(&mut ctx, &g1, &smart_off, "char_1", &future, &pre);
    assert_eq!(name, "goblin");
    assert_eq!(ordinal, None);
}

#[test]
fn long_names_tell_colliders_apart() {
    let mut g1 = being("mob_1", "goblin", Gender::Neutral, false);
    g1.long_name = Some("red goblin".to_string());
    let mut g2 = being("mob_2", "goblin", Gender::Neutral, false);
    g2.long_name = Some("blue goblin".to_string());
    let mut ctx = RenderContext::new("char_1").with_entity("g1", &g1).with_entity("g2", &g2);
    let future: Vec<&str> = vec!["g2"];
    let mut pre: KeyMap<&TemplateEntity> = KeyMap::new();
    pre.insert("g2".to_string(), &g2);
    let (name, ordinal) = resolve_display_name(&mut ctx, &g1, &params("g1"), "char_1", &future, &pre);
    assert_eq!(name, "red goblin");
    assert_eq!(ordinal, None);
}

#[test]
fn adjectives_tell_colliders_apart() {
    let mut g1 = being("mob_1", "goblin", Gender::Neutral, false);
    g1.adjective_words = Some(vec!["green".to_string(), "small".to_string()]);
    let mut g2 = being("mob_2", "goblin", Gender::Neutral, false);
    g2.adjective_words = Some(vec!["small".to_string()]);
    let colliders = vec![&g2];
    assert_eq!(try_adjective_disambiguation(&g1, &colliders, "goblin", 5), Some(("green goblin".to_string(), false)));
    let plain = being("mob_3", "goblin", Gender::Neutral, false);
    assert_eq!(try_adjective_disambiguation(&plain, &colliders, "goblin", 5), None);
    assert_eq!(try_adjective_disambiguation(&g1, &colliders, "goblin", 0), None);
}

#[test]
fn ambiguous_pronouns_are_detected() {
    let g1 = being("mob_1", "goblin", Gender::Neutral, false);
    let g2 = being("mob_2", "orc", Gender::Neutral, false);
    let ctx = RenderContext::new("char_1").with_entity("g1", &g1).with_entity("g2", &g2).with_last_mentioned("g1").with_last_mentioned("g2");
    let pc = PronounContextFlags { is_plural: false, is_group: false, is_viewer: false, is_active_subject: false, is_reflexive: false, already_seen: true };
    assert!(is_pronoun_ambiguous(&ctx, "g1", Gender::Neutral, pc, TagFlags::empty()));
    assert!(!is_pronoun_ambiguous(&ctx, "g1", Gender::Male, pc, TagFlags::empty()));
}

#[test]
fn group_genders_are_shared_or_neutral() {
    let pair = vec![being("a", "Bob", Gender::Male, false), being("b", "Tom", Gender::Male, false)];
    assert_eq!(determine_group_singular_gender(&pair), Gender::Male);
    let mixed = vec![being("a", "Bob", Gender::Male, false), being("c", "Ann", Gender::Female, false)];
    assert_eq!(determine_group_singular_gender(&mixed), Gender::Neutral);
    let pack = vec![being("d", "wolves", Gender::Plural, true)];
    assert_eq!(determine_group_singular_gender(&pack), Gender::Neutral);
    assert_eq!(determine_group_singular_gender(&Vec::new()), Gender::Neutral);
}

#[test]
fn viewer_suffixes_follow_the_case() {
    let mut ends = false;
    assert_eq!(format_group_viewer_suffix(true, false, false, &mut ends), "my");
    assert!(ends);
    let mut ends = false;
    assert_eq!(format_group_viewer_suffix(false, true, true, &mut ends), "myself");
    assert_eq!(format_group_viewer_suffix(false, false, true, &mut ends), "me");
    assert_eq!(format_group_viewer_suffix(false, false, false, &mut ends), "I");
    assert!(!ends);
}

#[test]
fn groups_list_their_members() {
    let members = vec![being("char_1", "Aldran", Gender::Male, false), being("mob_1", "goblin", Gender::Neutral, false)];
    let party = TemplateEntity::new("party", "", Gender::Plural, true, true);
    let pre: KeyMap<&TemplateEntity> = KeyMap::new();

    let ctx = RenderContext::new("char_1");
    let mut out = String::new();
    render_group_entity(&ctx, &mut out, &party, &members, "char_1", &params("party"), true, false, &pre);
    assert_eq!(out, "You and goblin");

    let ctx = RenderContext::new("char_1").with_stance(ActorStance::FirstPerson);
    let mut out = String::new();
    render_group_entity(&ctx, &mut out, &party, &members, "char_1", &params("party"), false, false, &pre);
    assert_eq!(out, "goblin and I");

    let mut poss = params("party");
    poss.flags.is_possessive = true;
    let mut out = String::from("> ");
    render_group_entity(&ctx, &mut out, &party, &members, "char_1", &poss, false, false, &pre);
    assert_eq!(out, "> goblin's and my");

    let mut out = String::new();
    render_group_entity(&ctx, &mut out, &party, &Vec::new(), "char_1", &params("party"), true, false, &pre);
    assert_eq!(out, "");
}

#[test]
fn runtime_verbs_take_precedence() {
    let mut dict = VerbDictionary::new();
    force_add_irregular_verb(&mut dict, "Yeet", "Yeetses", "Yote");
    assert_eq!(conjugate_verb("yeet", "yeet", false, false, false, ActorStance::SecondPerson, Tense::Present, &dict), "yeetses");
    assert_eq!(conjugate_verb("yeet", "yeet", true, false, false, ActorStance::SecondPerson, Tense::Past, &dict), "Yote");
    force_add_irregular_verb(&mut dict, "have", "haves", "haved");
    assert_eq!(conjugate_verb("have", "have", false, false, false, ActorStance::SecondPerson, Tense::Present, &dict), "haves");
    assert!(remove_irregular_verb(&mut dict, "have"));
    assert_eq!(conjugate_verb("have", "have", false, false, false, ActorStance::SecondPerson, Tense::Present, &dict), "has");
}

#[test]
fn pinned_entities_survive_later_mentions() {
    let a = being("a", "apple", Gender::Neutral, false);
    let b = being("b", "box", Gender::Neutral, false);
    let c = being("c", "cup", Gender::Neutral, false);
    let ctx = RenderContext::new("viewer")
        .with_anaphora_limit(1)
        .with_entity("a", &a)
        .with_entity("b", &b)
        .with_entity("c", &c)
        .with_pinned_entity("a")
        .with_last_mentioned("b")
        .with_last_mentioned("c");
    assert!(ctx.has_seen_entity("a"));
    assert!(ctx.is_entity_pinned("a"));
    assert!(!ctx.has_seen_entity("b"));
    assert!(!ctx.has_seen_entity("c"));
}

#[test]
fn wrapped_calls_compute() {
    assert_eq!(number_to_ordinal_word(1001, 999), "1001st");
    assert_eq!(number_to_ordinal_word(22, 0), "22nd");
    let flags = ArticleFlags { is_proper_noun: false, is_plural: false, force_article: false, after_possessive: false, is_capitalized: false };
    assert_eq!(resolve_article("a", "apple", None, None, 999, flags), Some("an ".to_string()));
    assert_eq!(resolve_article("a", "sword", None, None, 999, flags), Some("a ".to_string()));
    let mut out = String::from("x ");
    push_capitalized_if(&mut out, "\u{e9}lan", true);
    assert_eq!(out, "x \u{c9}lan");
    let mut out = String::new();
    push_capitalized_if(&mut out, "Done", true);
    assert_eq!(out, "Done");
}

#[test]
fn keymaps_keep_insertion_order() {
    let mut m: KeyMap<u32> = KeyMap::new();
    assert!(m.is_empty());
    m.insert("b".to_string(), 2);
    m.insert("a".to_string(), 1);
    m.insert("b".to_string(), 3);
    assert_eq!(m.len(), 2);
    assert_eq!(m.get("b"), Some(&3));
    assert_eq!(m.entry_at(0).0, "b");
    assert_eq!(m.entry_at(1).0, "a");
    assert_eq!(m.remove("b"), Some(3));
    assert!(!m.contains_key("b"));
    assert_eq!(m.remove("zz"), None);
    assert_eq!(m.len(), 1);
}

#[test]
fn memory_carries_over_between_contexts() {
    let a = being("a", "apple", Gender::Neutral, false);
    let b = being("b", "box", Gender::Neutral, false);
    let first = RenderContext::new("viewer").with_entity("a", &a).with_entity("b", &b).with_pinned_entity("b").with_last_mentioned("a");
    let state = first.extract_anaphora();
    let second = RenderContext::new("other").with_entity("a", &a).with_anaphora(state);
    assert!(second.has_seen_entity("a"));
    assert!(second.is_entity_pinned("b"));
    assert_eq!(second.last_mentioned(), Some("a".to_string()));
    assert_eq!(second.viewer_id, "other");
}

#[test]
fn current_ordinal_is_the_latest_assignment() {
    let mut ctx = RenderContext::new("char_1");
    assert_eq!(assign_ordinal(&mut ctx, "goblin", "m1", true), Some(1));
    assert_eq!(assign_ordinal(&mut ctx, "big goblin", "x1", true), Some(1));
    assert_eq!(assign_ordinal(&mut ctx, "big goblin", "m1", true), Some(2));
    assert_eq!(ctx.current_ordinal("m1"), Some(2));
    assert_eq!(ctx.current_ordinal("x1"), Some(1));
    assert_eq!(ctx.extract_anaphora().current_ordinal("m1"), Some(2));
    assert_eq!(assign_ordinal(&mut ctx, "wolf", "w1", false), None);
    assert_eq!(ctx.current_ordinal("w1"), Some(1));
    assert_eq!(assign_ordinal(&mut ctx, "wolf", "w2", false), None);
    assert_eq!(ctx.current_ordinal("w1"), None);
    assert_eq!(ctx.current_ordinal("nobody"), None);
}

fn recent(key: &str, pinned: bool) -> mud_perspective::models::RecentEntity {
    mud_perspective::models::RecentEntity {
        key: key.to_string(),
        gender: Gender::Neutral,
        flags: mud_perspective::models::RecentEntityFlags {
            is_plural: false,
            is_viewer_normal: false,
            is_viewer_forced: false,
            is_pinned: pinned,
        },
        adjectives: vec![],
        resolved_name: None,
    }
}

#[test]
fn eviction_removes_the_oldest_unpinned_entries() {
    let mut recents = vec![recent("a", true), recent("b", false), recent("c", false), recent("d", true), recent("e", false)];
    let mut last = Some("b".to_string());
    let mut active = Some("e".to_string());
    mud_perspective::context::enforce_anaphora_limit(3, &mut recents, &mut last, &mut active);
    let keys: Vec<&str> = recents.iter().map(|r| r.key.as_str()).collect();
    assert_eq!(keys, vec!["a", "d", "e"]);
    assert_eq!(last, None);
    assert_eq!(active, Some("e".to_string()));

    let mut pinned = vec![recent("a", true), recent("b", true), recent("c", false)];
    let mut last = Some("a".to_string());
    let mut active = None;
    mud_perspective::context::enforce_anaphora_limit(1, &mut pinned, &mut last, &mut active);
    let keys: Vec<&str> = pinned.iter().map(|r| r.key.as_str()).collect();
    assert_eq!(keys, vec!["a", "b"]);
    assert_eq!(last, Some("a".to_string()));

    let mut unbounded = vec![recent("a", false), recent("b", false)];
    mud_perspective::context::enforce_anaphora_limit(0, &mut unbounded, &mut last, &mut active);
    assert_eq!(unbounded.len(), 2);
}
