use mud_perspective::keymap::KeyMap;
use mud_perspective::models::{ActorStance, Gender, TemplateEntity, Tense};
use mud_perspective::permutations::{context_description, permutation_output, plan_template_permutations};

fn entity(id: &str, name: &str) -> TemplateEntity {
    TemplateEntity::new(id, name, Gender::Neutral, false, false)
}

fn strings(v: &[&str]) -> Vec<String> {
    v.iter().map(|s| s.to_string()).collect()
}

fn subsets() -> KeyMap<Vec<TemplateEntity>> {
    let mut s = KeyMap::new();
    s.insert("actors".to_string(), vec![entity("a1", "goblin"), entity("a2", "wolf")]);
    s.insert("objects".to_string(), vec![entity("o1", "sword"), entity("o2", "axe"), entity("o3", "bow")]);
    s.insert("nothing".to_string(), vec![]);
    s
}

#[test]
fn plan_enumerates_viewer_then_stance_then_tense_then_entities() {
    let mut bindings = KeyMap::new();
    bindings.insert("weapon".to_string(), "objects".to_string());
    let cases = plan_template_permutations(
        &strings(&["actor", "weapon"]),
        &strings(&["v1", "v2"]),
        &vec![ActorStance::FirstPerson, ActorStance::ThirdPerson],
        &vec![Tense::Past],
        &subsets(),
        &bindings,
        false,
    )
    .unwrap();
    assert_eq!(cases.len(), 2 * 2 * 1 * 6);
    assert_eq!(cases[0].description, "[Viewer: v1, FirstPerson, Past] {actor: goblin, weapon: sword} -> ");
    assert_eq!(cases[1].entity_indices, vec![1, 0]);
    assert_eq!(cases[1].description, "[Viewer: v1, FirstPerson, Past] {actor: wolf, weapon: sword} -> ");
    assert_eq!(cases[2].entity_indices, vec![0, 1]);
    assert_eq!(cases[5].entity_indices, vec![1, 2]);
    assert_eq!(cases[5].description, "[Viewer: v1, FirstPerson, Past] {actor: wolf, weapon: bow} -> ");
    assert_eq!(cases[6].stance, ActorStance::ThirdPerson);
    assert_eq!(cases[6].entity_indices, vec![0, 0]);
    assert_eq!(cases[12].viewer_id, "v2");
    assert_eq!(cases[12].tense, Tense::Past);
}

#[test]
fn plan_marks_lookahead_in_the_description() {
    let cases = plan_template_permutations(
        &strings(&["target"]),
        &strings(&["v1"]),
        &vec![ActorStance::SecondPerson],
        &vec![Tense::Future],
        &subsets(),
        &KeyMap::new(),
        true,
    )
    .unwrap();
    assert_eq!(cases.len(), 2);
    assert_eq!(cases[0].description, "[Viewer: v1, SecondPerson, Future, Lookahead] {target: goblin} -> ");
}

#[test]
fn plan_without_viewers_has_no_cases() {
    let cases = plan_template_permutations(
        &strings(&["actor"]),
        &vec![],
        &vec![ActorStance::FirstPerson],
        &vec![Tense::Present],
        &subsets(),
        &KeyMap::new(),
        false,
    )
    .unwrap();
    assert!(cases.is_empty());
}

#[test]
fn plan_falls_back_to_actors_for_unknown_subsets() {
    let mut bindings = KeyMap::new();
    bindings.insert("actor".to_string(), "monsters".to_string());
    let cases = plan_template_permutations(
        &strings(&["actor"]),
        &strings(&["v1"]),
        &vec![ActorStance::FirstPerson],
        &vec![Tense::Present],
        &subsets(),
        &bindings,
        false,
    )
    .unwrap();
    assert_eq!(cases.len(), 2);
    assert_eq!(cases[1].description, "[Viewer: v1, FirstPerson, Present] {actor: wolf} -> ");
}

#[test]
fn plan_reports_missing_and_empty_subsets() {
    let mut only_objects = KeyMap::new();
    only_objects.insert("objects".to_string(), vec![entity("o1", "sword")]);
    let mut bindings = KeyMap::new();
    bindings.insert("actor".to_string(), "monsters".to_string());
    let r = plan_template_permutations(
        &strings(&["actor"]),
        &strings(&["v1"]),
        &vec![ActorStance::FirstPerson],
        &vec![Tense::Present],
        &only_objects,
        &bindings,
        false,
    );
    assert_eq!(r.unwrap_err(), "Subset 'monsters' not found and no 'actors' fallback available.");
    let mut bindings = KeyMap::new();
    bindings.insert("actor".to_string(), "nothing".to_string());
    let r = plan_template_permutations(
        &strings(&["actor"]),
        &strings(&["v1"]),
        &vec![ActorStance::FirstPerson],
        &vec![Tense::Present],
        &subsets(),
        &bindings,
        false,
    );
    assert_eq!(r.unwrap_err(), "Subset 'nothing' is empty.");
}

#[test]
fn plan_refuses_too_many_combinations() {
    let keys = strings(&["a", "b", "c", "d", "e", "f", "g", "h", "i", "j", "k", "l", "m", "n", "o", "p", "q"]);
    let r = plan_template_permutations(
        &keys,
        &strings(&["v1"]),
        &vec![ActorStance::FirstPerson],
        &vec![Tense::Present],
        &subsets(),
        &KeyMap::new(),
        false,
    );
    assert_eq!(
        r.unwrap_err(),
        "Too many combinations: 131072. Please test the template in smaller segments or with fewer entities."
    );
    let many: Vec<String> = (0..70).map(|i| format!("k{i}")).collect();
    let r = plan_template_permutations(
        &many,
        &strings(&["v1"]),
        &vec![ActorStance::FirstPerson],
        &vec![Tense::Present],
        &subsets(),
        &KeyMap::new(),
        false,
    );
    assert_eq!(r.unwrap_err(), "Too many combinations: Overflow");
}

#[test]
fn permutation_output_appends_the_render_or_the_error() {
    let cases = plan_template_permutations(
        &strings(&["actor"]),
        &strings(&["v1"]),
        &vec![ActorStance::FirstPerson],
        &vec![Tense::Present],
        &subsets(),
        &KeyMap::new(),
        false,
    )
    .unwrap();
    assert_eq!(
        permutation_output(&cases[0], Ok("The goblin waves.".to_string())),
        "[Viewer: v1, FirstPerson, Present] {actor: goblin} -> The goblin waves."
    );
    assert_eq!(
        permutation_output(&cases[0], Err("bad".to_string())),
        "[Viewer: v1, FirstPerson, Present] {actor: goblin} -> ERROR: bad"
    );
}

#[test]
fn a_fixed_context_lists_the_keys_it_holds() {
    let mut entities = KeyMap::new();
    entities.insert("source".to_string(), entity("a1", "goblin"));
    entities.insert("target".to_string(), entity("a2", "wolf"));
    let keys = strings(&["source", "weapon", "target"]);
    assert_eq!(
        context_description(ActorStance::ThirdPerson, Tense::Past, true, &keys, &entities),
        "[ThirdPerson, Past, Lookahead] {source: goblin, target: wolf} -> "
    );
    assert_eq!(
        context_description(ActorStance::FirstPerson, Tense::Present, false, &strings(&["weapon"]), &entities),
        "[FirstPerson, Present] {} -> "
    );
}
