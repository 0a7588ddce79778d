use mud_perspective::grammar::number_to_ordinal_word;
use mud_perspective::text::{deunicode_str, str_to_lowercase, usize_to_string};
#[test]
fn test_number_to_ordinal_word() {
    assert_eq!(number_to_ordinal_word(3, 9999), "third");
    assert_eq!(number_to_ordinal_word(21, 9999), "twenty-first");
    assert_eq!(number_to_ordinal_word(50, 9999), "fiftieth");
    assert_eq!(number_to_ordinal_word(108, 9999), "one hundred and eighth");
    assert_eq!(number_to_ordinal_word(111, 9999), "one hundred and eleventh");
    assert_eq!(number_to_ordinal_word(999, 9999), "nine hundred and ninety-ninth");
    assert_eq!(number_to_ordinal_word(1000, 9999), "one thousandth");
    assert_eq!(number_to_ordinal_word(1001, 9999), "one thousand and first");
    assert_eq!(number_to_ordinal_word(2022, 9999), "two thousand and twenty-second");
    assert_eq!(
        number_to_ordinal_word(1_234_567, usize::MAX),
        "one million two hundred and thirty-four thousand five hundred and sixty-seventh"
    );
    assert_eq!(
        number_to_ordinal_word(18_000_000_000_000_000_001, usize::MAX),
        "eighteen quintillion and first"
    );

    assert_eq!(number_to_ordinal_word(3, 0), "3rd");
    assert_eq!(number_to_ordinal_word(21, 20), "21st");
}

use mud_perspective::grammar::{
    add_irregular_verb, force_add_irregular_verb, capitalize_first, clear_irregular_verbs, conjugate_verb, format_oxford_list,
    format_verb, get_indefinite_article, resolve_article, resolve_pronoun, ArticleFlags, VerbDictionary,
};
use mud_perspective::models::{ActorStance, Gender, Tense};

fn third(verb: &str, tense: Tense, dict: &VerbDictionary) -> String {
    conjugate_verb(verb, &verb.to_lowercase(), false, false, false, ActorStance::SecondPerson, tense, dict)
}

#[test]
fn regular_verbs_follow_spelling_rules() {
    let dict = VerbDictionary::new();
    assert_eq!(third("carry", Tense::Present, &dict), "carries");
    assert_eq!(third("carry", Tense::Past, &dict), "carried");
    assert_eq!(third("watch", Tense::Present, &dict), "watches");
    assert_eq!(third("play", Tense::Present, &dict), "plays");
    assert_eq!(third("smile", Tense::Past, &dict), "smiled");
    assert_eq!(third("walk", Tense::Future, &dict), "will walk");
    assert_eq!(third("can", Tense::Future, &dict), "can");
    assert_eq!(third("go", Tense::Past, &dict), "went");
    assert_eq!(third("freak out", Tense::Present, &dict), "freaks out");
    assert_eq!(conjugate_verb("Freak out", "freak out", true, false, false, ActorStance::SecondPerson, Tense::Present, &dict), "Freaks out");
}

#[test]
fn be_and_auxiliaries_follow_the_subject() {
    let dict = VerbDictionary::new();
    assert_eq!(conjugate_verb("be", "be", false, true, false, ActorStance::FirstPerson, Tense::Present, &dict), "am");
    assert_eq!(conjugate_verb("be", "be", false, true, false, ActorStance::SecondPerson, Tense::Present, &dict), "are");
    assert_eq!(conjugate_verb("be", "be", false, false, false, ActorStance::SecondPerson, Tense::Present, &dict), "is");
    assert_eq!(conjugate_verb("be", "be", true, false, true, ActorStance::SecondPerson, Tense::Past, &dict), "Were");
    assert_eq!(conjugate_verb("be", "be", false, false, false, ActorStance::SecondPerson, Tense::Past, &dict), "was");
    assert_eq!(conjugate_verb("do(aux)", "do(aux)", false, false, false, ActorStance::SecondPerson, Tense::Future, &dict), "will");
    assert_eq!(conjugate_verb("do(aux)", "do(aux)", false, false, false, ActorStance::SecondPerson, Tense::Present, &dict), "does");
    assert_eq!(conjugate_verb("walk", "walk", false, true, false, ActorStance::SecondPerson, Tense::Present, &dict), "walk");
}

#[test]
fn runtime_verbs_are_checked_on_entry() {
    let mut dict = VerbDictionary::new();
    assert_eq!(add_irregular_verb(&mut dict, "Go", "goes", "went"), Err("Verb 'go' already exists in the static dictionary.".to_string()));
    assert_eq!(add_irregular_verb(&mut dict, "Yeet", "Yeetses", "Yote"), Ok(()));
    assert_eq!(add_irregular_verb(&mut dict, "yeet", "a", "b"), Err("Verb 'yeet' already exists in the runtime dictionary.".to_string()));
    assert_eq!(third("yeet", Tense::Past, &dict), "yote");
    clear_irregular_verbs(&mut dict);
    assert_eq!(third("yeet", Tense::Past, &dict), "yeeted");
}

#[test]
fn built_in_irregular_verbs_stay_after_clearing() {
    let mut dict = VerbDictionary::new();
    assert!(add_irregular_verb(&mut dict, "arise", "arises not", "arose not").is_err());
    force_add_irregular_verb(&mut dict, "arise", "arizez", "arouze");
    assert_eq!(third("arise", Tense::Present, &dict), "arizez");
    clear_irregular_verbs(&mut dict);
    assert!(add_irregular_verb(&mut dict, "arise", "a", "b").is_err());
    assert_eq!(third("arise", Tense::Past, &dict), "arose");
    assert_eq!(third("run", Tense::Past, &dict), "ran");
    assert_eq!(third("catch", Tense::Past, &dict), "caught");
    assert_eq!(third("ran", Tense::Present, &dict), "ran");
}

#[test]
fn pronouns_and_lists() {
    assert_eq!(resolve_pronoun(Gender::Male, "subj", false, false, ActorStance::SecondPerson), Ok("he"));
    assert_eq!(resolve_pronoun(Gender::Plural, "abs_poss", false, true, ActorStance::SecondPerson), Ok("theirs"));
    assert_eq!(resolve_pronoun(Gender::Female, "reflex", true, false, ActorStance::FirstPerson), Ok("myself"));
    assert_eq!(resolve_pronoun(Gender::Neutral, "refl", false, false, ActorStance::SecondPerson), Err("Unknown pronoun type: refl".to_string()));
    let items = |v: &[&str]| v.iter().map(|s| s.to_string()).collect::<Vec<String>>();
    assert_eq!(format_oxford_list(items(&["a", "b", "c"]), "and"), "a, b, and c");
    assert_eq!(format_oxford_list(items(&["a", "b"]), "or"), "a or b");
    assert_eq!(format_oxford_list(items(&["a"]), "and"), "a");
    assert_eq!(format_oxford_list(Vec::new(), "and"), "");
    assert_eq!(capitalize_first("\u{e9}lan"), "\u{c9}lan");
    assert_eq!(capitalize_first(""), "");
    assert_eq!(format_verb("walks", true), "Walks");
    assert_eq!(format_verb("walks", false), "walks");
}

#[test]
fn articles_follow_the_entity() {
    let f = ArticleFlags { is_proper_noun: false, is_plural: false, force_article: false, after_possessive: false, is_capitalized: false };
    assert_eq!(resolve_article("a", "goblin", Some(3), None, 999, f), Some("a third ".to_string()));
    assert_eq!(resolve_article("a", "goblin", Some(2), None, 999, f), Some("a ".to_string()));
    let plural = ArticleFlags { is_plural: true, ..f };
    assert_eq!(resolve_article("the", "wolves", Some(2), Some("pack"), 999, plural), Some("the second pack of ".to_string()));
    assert_eq!(resolve_article("a", "wolves", None, None, 999, plural), Some("some ".to_string()));
    assert_eq!(resolve_article("The", "goblin", None, None, 999, f), Some("The ".to_string()));
    let proper = ArticleFlags { is_proper_noun: true, ..f };
    assert_eq!(resolve_article("the", "Aldran", None, None, 999, proper), None);
    assert_eq!(resolve_article("the", "Aldran", None, None, 999, ArticleFlags { force_article: true, ..proper }), Some("the ".to_string()));
    let after = ArticleFlags { after_possessive: true, ..f };
    assert_eq!(resolve_article("the", "sword", None, None, 999, after), None);
    assert_eq!(resolve_article("xyz", "sword", None, None, 999, f), None);
    assert_eq!(get_indefinite_article("apple"), "an");
    assert_eq!(get_indefinite_article("sword"), "a");
    assert_eq!(get_indefinite_article("  "), "");
}

#[test]
fn text_helpers_follow_std() {
    assert_eq!(deunicode_str("a\u{7f}b"), "ab");
    assert_eq!(deunicode_str("Ærøskøbing"), "AEroskobing");
    assert_eq!(deunicode_str("plain text"), "plain text");
    assert_eq!(usize_to_string(0), "0");
    assert_eq!(usize_to_string(1907), "1907");
    assert_eq!(usize_to_string(usize::MAX), usize::MAX.to_string());
    assert_eq!(str_to_lowercase("Hello, World!"), "hello, world!");
}

#[test]
fn be_agrees_with_its_subject() {
    let dict = VerbDictionary::new();
    let be = |is_viewer: bool, is_plural: bool, stance: ActorStance, tense: Tense| {
        conjugate_verb("be", "be", false, is_viewer, is_plural, stance, tense, &dict)
    };
    assert_eq!(be(true, false, ActorStance::FirstPerson, Tense::Present), "am");
    assert_eq!(be(true, false, ActorStance::SecondPerson, Tense::Present), "are");
    assert_eq!(be(false, true, ActorStance::SecondPerson, Tense::Present), "are");
    assert_eq!(be(false, false, ActorStance::SecondPerson, Tense::Present), "is");
    assert_eq!(be(true, false, ActorStance::FirstPerson, Tense::Past), "was");
    assert_eq!(be(true, false, ActorStance::SecondPerson, Tense::Past), "were");
    assert_eq!(be(false, true, ActorStance::ThirdPerson, Tense::Past), "were");
    assert_eq!(be(false, false, ActorStance::ThirdPerson, Tense::Past), "was");
}

#[test]
fn future_verbs_follow_will_and_viewers_keep_the_verb() {
    let dict = VerbDictionary::new();
    assert_eq!(conjugate_verb("Run", "run", false, false, false, ActorStance::SecondPerson, Tense::Future, &dict), "will run");
    assert_eq!(conjugate_verb("must", "must", false, false, false, ActorStance::SecondPerson, Tense::Future, &dict), "must");
    assert_eq!(conjugate_verb("fly", "fly", false, true, false, ActorStance::SecondPerson, Tense::Present, &dict), "fly");
    assert_eq!(conjugate_verb("fly", "fly", true, false, true, ActorStance::SecondPerson, Tense::Present, &dict), "Fly");
}
