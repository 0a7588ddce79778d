use mud_perspective::debug::{EntitiesPayload, SubsetConfig};
use mud_perspective::keymap::KeyMap;
use mud_perspective::models::Gender;
use mud_perspective::tester::{
    handle_add, handle_bind, handle_bindings, handle_remove, handle_set, handle_sets,
    handle_unbind, parse_args,
};
use mud_perspective::tester::{classify_command, Command};
use mud_perspective::tester::apply_default_bindings;
use mud_perspective::tester::{subset_answer, unbound_keys};

#[test]
fn test_handle_bind_valid() {
    let mut bindings = KeyMap::new();
    let mut subsets = KeyMap::new();
    subsets.insert("objects".to_string(), SubsetConfig { viewer_capable: false });
    let payload = EntitiesPayload { subsets, entities: vec![] };

    let mut output = Vec::new();
    handle_bind("weapon=objects", &mut bindings, Some(&payload), &mut output);
    assert_eq!(bindings.get("weapon").map(String::as_str), Some("objects"));
}

#[test]
fn test_handle_bind_invalid() {
    let mut bindings = KeyMap::new();
    let mut subsets = KeyMap::new();
    subsets.insert("actors".to_string(), SubsetConfig { viewer_capable: true });
    let payload = EntitiesPayload { subsets, entities: vec![] };

    let mut output = Vec::new();
    handle_bind("weapon=objects", &mut bindings, Some(&payload), &mut output);
    assert!(
        bindings.is_empty(),
        "Binding should not be added if the subset does not exist in the payload"
    );
}

#[test]
fn test_handle_unbind() {
    let mut bindings = KeyMap::new();
    bindings.insert("weapon".to_string(), "objects".to_string());

    let mut output = Vec::new();
    handle_unbind("weapon", &mut bindings, &mut output);
    assert!(bindings.is_empty(), "Binding should be successfully removed");
}

#[test]
fn test_handle_add_and_remove() {
    let mut payload = Some(EntitiesPayload { subsets: KeyMap::new(), entities: vec![] });
    let mut cached_subsets = Some(vec!["actors".to_string()]);

    let mut output_add = Vec::new();
    handle_add(
        "actors, char_1, Aldran, male, false, true",
        &mut payload,
        &mut cached_subsets,
        &mut output_add,
    );

    let entities = &payload.as_ref().expect("Payload should exist").entities;
    assert_eq!(entities.len(), 1);
    assert_eq!(entities[0].id, "char_1");
    assert_eq!(entities[0].name, "Aldran");
    assert_eq!(entities[0].gender, Gender::Male);
    assert_eq!(entities[0].is_plural, false);
    assert_eq!(entities[0].is_proper_noun, true);
    assert_eq!(entities[0].subset, "actors");

    assert!(cached_subsets.is_none(), "Cached subsets should be invalidated on add");

    let mut cached_subsets_again = Some(vec!["actors".to_string()]);
    let mut output_rm = Vec::new();
    handle_remove("char_1", &mut payload, &mut cached_subsets_again, &mut output_rm);

    let entities_after = &payload.as_ref().expect("Payload should exist").entities;
    assert!(entities_after.is_empty(), "Entity should be removed");
    assert!(
        cached_subsets_again.is_none(),
        "Cached subsets should be invalidated on remove"
    );
}

#[test]
fn test_parse_args_basic() {
    let args = vec!["tester".to_string(), "input.txt".to_string(), "output.txt".to_string()];
    let config = parse_args(&args).expect("Failed to parse args");
    assert_eq!(config.input_path, "input.txt");
    assert_eq!(config.output_path, Some("output.txt".to_string()));
    assert!(!config.interactive);
}

#[test]
fn test_parse_args_interactive() {
    let args = vec!["tester".to_string(), "-i".to_string()];
    let config = parse_args(&args).expect("Failed to parse args");
    assert!(config.interactive);
    assert!(config.input_path.is_empty());
}

#[test]
fn test_parse_args_bindings() {
    let args = vec!["tester".to_string(), "--bind".to_string(), "weapon=objects".to_string()];
    let config = parse_args(&args).expect("Failed to parse args");
    assert_eq!(config.cli_bindings.get("weapon").map(String::as_str), Some("objects"));
}

#[test]
fn test_parse_args_invalid_argument() {
    let args = vec![
        "tester".to_string(),
        "input.txt".to_string(),
        "output.txt".to_string(),
        "extra.txt".to_string(),
    ];
    let err = parse_args(&args).expect_err("Should fail on extra argument");
    assert!(err.contains("Unexpected argument: extra.txt"));
}

#[test]
fn parse_args_rejects_bind_without_equals() {
    let args = vec!["tester".to_string(), "-b".to_string(), "weapon".to_string()];
    let err = parse_args(&args).expect_err("a binding needs '='");
    assert_eq!(err, "Invalid bind format. Expected key=subset (e.g., weapon=objects)");
}

#[test]
fn parse_args_reads_flags_and_paths() {
    let args = vec![
        "tester".to_string(),
        "--entities".to_string(),
        "e.json".to_string(),
        "-c".to_string(),
        "ctx.json".to_string(),
        "-l".to_string(),
        "in.txt".to_string(),
    ];
    let config = parse_args(&args).expect("valid arguments");
    assert_eq!(config.entities_path.as_deref(), Some("e.json"));
    assert_eq!(config.context_path.as_deref(), Some("ctx.json"));
    assert!(config.lookahead);
    assert_eq!(config.input_path, "in.txt");
    assert!(!config.interactive);
    assert!(config.output_path.is_none());
}

#[test]
fn bind_reports_each_outcome() {
    let mut bindings = KeyMap::new();
    let mut output = Vec::new();
    handle_bind(" weapon = objects ", &mut bindings, None, &mut output);
    handle_bind("weapon", &mut bindings, None, &mut output);
    assert_eq!(
        output,
        vec![
            "Bound 'weapon' to 'objects'".to_string(),
            "Invalid bind format. Use: bind key=subset (e.g., bind weapon=objects)".to_string(),
        ]
    );
    let payload = EntitiesPayload { subsets: KeyMap::new(), entities: vec![] };
    handle_bind("item=things", &mut bindings, Some(&payload), &mut output);
    assert_eq!(output[2], "Error: Subset 'things' does not exist.");
    handle_unbind("item", &mut bindings, &mut output);
    assert_eq!(output[3], "Key 'item' was not bound.");
    handle_bindings(&bindings, &mut output);
    assert_eq!(output[4], "Current bindings:");
    assert_eq!(output[5], "  weapon = objects");
}

#[test]
fn sets_are_sorted_and_unique() {
    let mut payload = Some(EntitiesPayload { subsets: KeyMap::new(), entities: vec![] });
    let mut cache = None;
    let mut output = Vec::new();
    handle_add("objects, item_9, lamp, neutral, false, false", &mut payload, &mut cache, &mut output);
    handle_add("actors, mob_9, orc, MALE, TRUE, false", &mut payload, &mut cache, &mut output);
    handle_add("actors, mob_8, elf, elvish, false, false", &mut payload, &mut cache, &mut output);
    assert_eq!(output[2], "Invalid gender. Use: male, female, neutral, or plural");
    let p = payload.as_ref().unwrap();
    assert_eq!(p.entities[1].gender, Gender::Male);
    assert!(p.entities[1].is_plural);
    let mut listing = Vec::new();
    handle_sets(Some(p), &mut cache, &mut listing);
    assert_eq!(listing, vec!["Subsets:".to_string(), "  actors".to_string(), "  objects".to_string()]);
    let mut set_listing = Vec::new();
    handle_set(" actors ", Some(p), &mut set_listing);
    assert_eq!(
        set_listing,
        vec![
            "Entities in subset 'actors':".to_string(),
            "  id: mob_9, name: orc, gender: Male, plural: true, proper: false".to_string(),
        ]
    );
}

#[test]
fn prompt_lines_are_read_as_commands() {
    assert_eq!(classify_command("  "), Command::Empty);
    assert_eq!(classify_command(" QUIT "), Command::Exit);
    assert_eq!(classify_command("Help"), Command::Help);
    assert_eq!(classify_command("bindings"), Command::Bindings);
    assert_eq!(classify_command("bind weapon=objects"), Command::Bind("weapon=objects".to_string()));
    assert_eq!(classify_command("unbind weapon"), Command::Unbind("weapon".to_string()));
    assert_eq!(classify_command("SETS"), Command::Sets);
    assert_eq!(classify_command("set actors"), Command::ShowSet("actors".to_string()));
    assert_eq!(classify_command("add actors,a,b,male,false,true"), Command::Add("actors,a,b,male,false,true".to_string()));
    assert_eq!(classify_command("remove mob_1\n"), Command::Remove("mob_1".to_string()));
    assert_eq!(classify_command("{Source} waves."), Command::Template("{Source} waves.".to_string()));
}

#[test]
fn common_keys_get_default_bindings() {
    let mut bindings = KeyMap::new();
    bindings.insert("weapon".to_string(), "actors".to_string());
    apply_default_bindings(&mut bindings, None);
    assert_eq!(bindings.get("source").map(String::as_str), Some("actors"));
    assert_eq!(bindings.get("target").map(String::as_str), Some("actors"));
    assert_eq!(bindings.get("weapon").map(String::as_str), Some("actors"));
    assert_eq!(bindings.get("item").map(String::as_str), Some("objects"));
    let mut subsets = KeyMap::new();
    subsets.insert("actors".to_string(), SubsetConfig { viewer_capable: true });
    let payload = EntitiesPayload { subsets, entities: vec![] };
    let mut only_actors = KeyMap::new();
    apply_default_bindings(&mut only_actors, Some(&payload));
    assert_eq!(only_actors.get("source").map(String::as_str), Some("actors"));
    assert!(!only_actors.contains_key("weapon"));
    assert!(!only_actors.contains_key("item"));
}

#[test]
fn unbound_keys_ask_for_a_subset() {
    let mut bindings = KeyMap::new();
    bindings.insert("source".to_string(), "actors".to_string());
    let keys = vec!["source".to_string(), "door".to_string(), "key".to_string()];
    assert_eq!(unbound_keys(&keys, &bindings), vec!["door".to_string(), "key".to_string()]);
    let mut subsets = KeyMap::new();
    subsets.insert("objects".to_string(), SubsetConfig { viewer_capable: false });
    let payload = EntitiesPayload { subsets, entities: vec![] };
    assert_eq!(subset_answer(" objects \n", Some(&payload)), Ok("objects".to_string()));
    assert_eq!(subset_answer("\n", None), Ok("actors".to_string()));
    assert_eq!(
        subset_answer("\n", Some(&payload)),
        Err("Error: Subset 'actors' does not exist. Try again.".to_string())
    );
}
