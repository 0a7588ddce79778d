use mud_perspective::engine::PerspectiveEngine;
use mud_perspective::grammar::VerbDictionary;
use mud_perspective::models::{ActorStance, Gender, RenderContext, TemplateEntity, Tense};
use mud_perspective::template::Template;

/// Aldran, who is the viewer `char_1` and reads himself as "you".
fn aldran() -> TemplateEntity {
    let mut e = TemplateEntity::new("char_1", "Aldran", Gender::Male, false, true);
    e.viewer_ids.push("char_1".to_string());
    e.names_for.push(("char_1".to_string(), "you".to_string()));
    e
}

fn render(text: &str, ctx: &mut RenderContext) -> String {
    let t = Template::compile(text).unwrap();
    PerspectiveEngine::render_raw(&t, ctx, &VerbDictionary::new()).unwrap()
}

fn seen_by<'a>(viewer: &'a str, tense: Tense, player: &'a TemplateEntity) -> RenderContext<'a> {
    RenderContext::new(viewer).with_entity("source", player).with_tense(tense)
}

#[test]
fn test_dynamic_past_tense_regular_fallbacks() {
    let player = aldran();
    let cases = vec![("chase", "chased"), ("dry", "dried"), ("play", "played"), ("walk", "walked"), ("box", "boxed")];
    for (verb, expected_past) in cases {
        let mut ctx = seen_by("char_2", Tense::Past, &player);
        assert_eq!(render(&format!("{{source}} [source:{verb}]."), &mut ctx), format!("Aldran {expected_past}."));
    }
}

#[test]
fn test_dynamic_past_tense_irregular_phrasal() {
    let player = aldran();
    let mut ctx = seen_by("char_2", Tense::Past, &player);
    assert_eq!(render("{source} [source:catch up].", &mut ctx), "Aldran caught up.");
}

#[test]
fn test_dynamic_past_tense_forced_conjugation() {
    let player = aldran();
    let pres_only = "{source} [source:freak out|freak out|freaks out].";
    assert_eq!(render(pres_only, &mut seen_by("char_2", Tense::Present, &player)), "Aldran freaks out.");
    assert_eq!(render(pres_only, &mut seen_by("char_2", Tense::Past, &player)), "Aldran freaked out.");

    let both = "{source} [source:be|am|are|is;was|were|was] here.";
    let mut first_present = seen_by("char_1", Tense::Present, &player).with_stance(ActorStance::FirstPerson);
    assert_eq!(render(both, &mut first_present), "I am here.");
    let mut first_past = seen_by("char_1", Tense::Past, &player).with_stance(ActorStance::FirstPerson);
    assert_eq!(render(both, &mut first_past), "I was here.");
    assert_eq!(render(both, &mut seen_by("char_2", Tense::Present, &player)), "Aldran is here.");
    assert_eq!(render(both, &mut seen_by("char_2", Tense::Past, &player)), "Aldran was here.");

    let past_only = "{source} [source:bloop|;blorped].";
    assert_eq!(render(past_only, &mut seen_by("char_2", Tense::Present, &player)), "Aldran bloops.");
    assert_eq!(render(past_only, &mut seen_by("char_2", Tense::Past, &player)), "Aldran blorped.");
}

#[test]
fn test_dynamic_past_tense_pronouns_and_possessives() {
    let player = aldran();
    let text = "{source} [source:draw] {source:poss} sword to defend {source:reflex}. The victory [source:be] {source:abs_poss}!";
    assert_eq!(
        render(text, &mut seen_by("char_2", Tense::Present, &player)),
        "Aldran draws his sword to defend himself. The victory is his!"
    );
    assert_eq!(
        render(text, &mut seen_by("char_2", Tense::Past, &player)),
        "Aldran drew his sword to defend himself. The victory was his!"
    );
}

#[test]
fn test_dynamic_past_tense_have_and_be() {
    let player = aldran();
    let text = "{source} [source:have] no choice, {source:subj} [source:be] trapped.";
    assert_eq!(render(text, &mut seen_by("char_2", Tense::Present, &player)), "Aldran has no choice, he is trapped.");
    assert_eq!(render(text, &mut seen_by("char_2", Tense::Past, &player)), "Aldran had no choice, he was trapped.");
}

#[test]
fn test_colliding_verbs_disambiguation() {
    let player = aldran();
    let lay = "{source} [source:lie(lay)] down.";
    let lied = "{source} [source:lie(lied)] to me.";
    assert_eq!(render(lay, &mut seen_by("char_2", Tense::Present, &player)), "Aldran lies down.");
    assert_eq!(render(lied, &mut seen_by("char_2", Tense::Present, &player)), "Aldran lies to me.");
    assert_eq!(render(lay, &mut seen_by("char_2", Tense::Past, &player)), "Aldran lay down.");
    assert_eq!(render(lied, &mut seen_by("char_2", Tense::Past, &player)), "Aldran lied to me.");
}

#[test]
fn test_dynamic_past_tense_capitalization() {
    let player = aldran();
    assert_eq!(render("[source:Walk] away.", &mut seen_by("char_2", Tense::Past, &player)), "Walked away.");
    assert_eq!(render("[source:Run] away.", &mut seen_by("char_2", Tense::Past, &player)), "Ran away.");
    assert_eq!(
        render("[source:Pick up] the sword.", &mut seen_by("char_2", Tense::Past, &player)),
        "Picked up the sword."
    );
    assert_eq!(render("[source:Be] ready.", &mut seen_by("char_2", Tense::Past, &player)), "Was ready.");
}

#[test]
fn test_dynamic_past_tense_modal_verbs() {
    let player = aldran();
    let cases = vec![("can", "could"), ("will", "would"), ("shall", "should"), ("may", "might")];
    for (modal, past) in cases {
        let mut ctx = seen_by("char_2", Tense::Past, &player);
        assert_eq!(render(&format!("{{source}} [source:{modal}] win."), &mut ctx), format!("Aldran {past} win."));
    }
}

#[test]
fn test_dynamic_future_tense() {
    let player = aldran();
    let cases = vec![
        ("{source} [source:walk].", "Aldran will walk."),
        ("{source} [source:be] ready.", "Aldran will be ready."),
        ("{source} [source:pick up] the sword.", "Aldran will pick up the sword."),
        ("{source} [source:can] win.", "Aldran can win."),
        ("[source:Attack]!", "Will attack!"),
        ("{source} [source:freak out|freak out|freaks out]!", "Aldran will freak out!"),
        ("{source} [source:have to] win.", "Aldran will have to win."),
        ("{source} [source:ought to] win.", "Aldran ought to win."),
    ];
    for (text, expected) in cases {
        assert_eq!(render(text, &mut seen_by("char_2", Tense::Future, &player)), expected);
    }
}

#[test]
fn test_dynamic_future_tense_pronouns_and_possessives() {
    let player = aldran();
    let text = "{source} [source:draw] {source:poss} sword to defend {source:reflex}. The victory [source:be] {source:abs_poss}!";
    assert_eq!(
        render(text, &mut seen_by("char_2", Tense::Future, &player)),
        "Aldran will draw his sword to defend himself. The victory will be his!"
    );
}

#[test]
fn test_dynamic_future_tense_force_director_stance() {
    let player = aldran();
    assert_eq!(
        render("{+source} [+source:win] the battle.", &mut seen_by("char_1", Tense::Future, &player)),
        "Aldran will win the battle."
    );
}

#[test]
fn test_all_twelve_english_tenses() {
    let player = aldran();
    let simple = "{source} [source:walk].";
    let continuous = "{source} [source:be] walking.";
    let perfect = "{source} [source:have] walked.";
    let perfect_continuous = "{source} [source:have] been walking.";
    let cases = vec![
        (simple, Tense::Present, "Aldran walks."),
        (simple, Tense::Past, "Aldran walked."),
        (simple, Tense::Future, "Aldran will walk."),
        (continuous, Tense::Present, "Aldran is walking."),
        (continuous, Tense::Past, "Aldran was walking."),
        (continuous, Tense::Future, "Aldran will be walking."),
        (perfect, Tense::Present, "Aldran has walked."),
        (perfect, Tense::Past, "Aldran had walked."),
        (perfect, Tense::Future, "Aldran will have walked."),
        (perfect_continuous, Tense::Present, "Aldran has been walking."),
        (perfect_continuous, Tense::Past, "Aldran had been walking."),
        (perfect_continuous, Tense::Future, "Aldran will have been walking."),
    ];
    for (text, tense, expected) in cases {
        assert_eq!(render(text, &mut seen_by("char_2", tense, &player)), expected);
    }
}

#[test]
fn test_dynamic_future_tense_do_support() {
    let player = aldran();
    let cases = vec![
        ("{source} [source:do(aux)] not run.", Tense::Present, "Aldran does not run."),
        ("{source} [source:do(aux)] not run.", Tense::Past, "Aldran did not run."),
        ("{source} [source:do(aux)] not run.", Tense::Future, "Aldran will not run."),
        ("[source:Do(aux)] {source:subj} run?", Tense::Present, "Does he run?"),
        ("[source:Do(aux)] {source:subj} run?", Tense::Past, "Did he run?"),
        ("[source:Do(aux)] {source:subj} run?", Tense::Future, "Will he run?"),
        ("{source} [source:do] the laundry.", Tense::Present, "Aldran does the laundry."),
        ("{source} [source:do] the laundry.", Tense::Past, "Aldran did the laundry."),
        ("{source} [source:do] the laundry.", Tense::Future, "Aldran will do the laundry."),
    ];
    for (text, tense, expected) in cases {
        assert_eq!(render(text, &mut seen_by("char_2", tense, &player)), expected);
    }
}
