//! Entities and entity sets for testing templates by permutation.
use vstd::prelude::*;
use crate::keymap::KeyMap;
use crate::models::{Gender, TemplateEntity};
use crate::text::str_eq;

verus! {

/// A simple entity used for debugging and template permutation testing.
#[derive(Debug)]
pub struct DebugEntity {
    /// The unique identifier of the entity.
    pub id: String,
    /// The display name of the entity.
    pub name: String,
    /// The grammatical gender of the entity.
    pub gender: Gender,
    /// Whether the entity is plural.
    pub is_plural: bool,
    /// Whether the entity is a proper noun.
    pub is_proper_noun: bool,
    /// The combinatorial subset this entity belongs to ("actors", "objects").
    pub subset: String,
}

/// The plain-value model of a debug entity: id, name, gender, plural, proper noun, subset.
pub open spec fn debug_model(e: DebugEntity) -> (Seq<char>, Seq<char>, Gender, bool, bool, Seq<char>) {
    (e.id@, e.name@, e.gender, e.is_plural, e.is_proper_noun, e.subset@)
}

/// Whether `e` is the template entity of a debug entity with the model `m` (id, name,
/// gender, plural, proper noun, subset): it has that id, name, gender, plurality and
/// proper-noun flag, represents the viewer with that id, who sees it as "you", and has
/// nothing else.
pub open spec fn entity_of_model(e: TemplateEntity, m: (Seq<char>, Seq<char>, Gender, bool, bool, Seq<char>)) -> bool {
    &&& e.id@ == m.0
    &&& e.name@ == m.1
    &&& e.gender == m.2
    &&& e.plural == m.3
    &&& e.proper_noun == m.4
    &&& e.viewer_ids@.len() == 1
    &&& e.viewer_ids@[0]@ == m.0
    &&& e.names_for@.len() == 1
    &&& e.names_for@[0].0@ == m.0
    &&& e.names_for@[0].1@ == "you"@
    &&& e.proper_noun_for@.len() == 0
    &&& e.properties@.len() == 0
    &&& e.string_properties@.len() == 0
    &&& e.conditions@.len() == 0
    &&& e.long_name is None
    &&& e.collective is None
    &&& e.adjective_words is None
    &&& e.synonym_words is None
    &&& e.alias_words is None
    &&& e.members is None
}

impl DebugEntity {
    /// The entity as a template entity: it is the viewer with its own id, which sees it as
    /// "you"; everyone else sees its name.
    pub fn to_entity(&self) -> (r: TemplateEntity)
        ensures
            entity_of_model(r, debug_model(*self)),
    {
        let mut e = TemplateEntity::new(
            self.id.as_str(),
            self.name.as_str(),
            self.gender,
            self.is_plural,
            self.is_proper_noun,
        );
        e.viewer_ids.push(self.id.clone());
        e.names_for.push((self.id.clone(), String::from_str("you")));
        e
    }
}

/// Configuration options for a specific entity subset.
#[derive(Debug, Clone, Copy)]
pub struct SubsetConfig {
    /// Whether entities in this subset can be the active viewer for first- and
    /// second-person testing.
    pub viewer_capable: bool,
}

/// The payload of a custom entities file: subset configurations and entities.
#[derive(Debug)]
pub struct EntitiesPayload {
    /// Configuration rules by subset name.
    pub subsets: KeyMap<SubsetConfig>,
    /// The custom entities to load for template testing.
    pub entities: Vec<DebugEntity>,
}

/// Whether a subset exists in a payload: it is configured, or some entity belongs to it.
pub open spec fn payload_has_subset(p: EntitiesPayload, name: Seq<char>) -> bool {
    p.subsets.map().contains_key(name) || exists|i: int|
        0 <= i < p.entities.len() && (#[trigger] p.entities@[i]).subset@ == name
}

impl EntitiesPayload {
    /// Checks whether a subset name is valid, by explicit configuration or entity presence.
    pub fn has_subset(&self, subset_name: &str) -> (r: bool)
        ensures
            r == payload_has_subset(*self, subset_name@),
    {
        if self.subsets.contains_key(subset_name) {
            return true;
        }
        let mut i: usize = 0;
        while i < self.entities.len()
            invariant
                i <= self.entities.len(),
                forall|j: int| 0 <= j < i ==> self.entities@[j].subset@ != subset_name@,
            decreases self.entities.len() - i,
        {
            if str_eq(self.entities[i].subset.as_str(), subset_name) {
                return true;
            }
            i = i + 1;
        }
        false
    }
}

/// The standard test entities: the viewer, proper and common nouns of each gender, a plural,
/// and objects.
pub open spec fn standard_entity_table() -> Seq<(Seq<char>, Seq<char>, Gender, bool, bool, Seq<char>)> {
    seq![
        ("viewer_1"@, "Aldran"@, Gender::Male, false, true, "actors"@),
        ("char_2"@, "Elara"@, Gender::Female, false, true, "actors"@),
        ("mob_1"@, "goblin"@, Gender::Neutral, false, false, "actors"@),
        ("mob_2"@, "wolves"@, Gender::Plural, true, false, "actors"@),
        ("item_1"@, "rusty sword"@, Gender::Neutral, false, false, "objects"@),
        ("char_3"@, "Iris"@, Gender::Female, false, true, "actors"@),
        ("mob_3"@, "octopus"@, Gender::Neutral, false, false, "actors"@),
        ("item_2"@, "Excalibur"@, Gender::Neutral, false, true, "objects"@),
        ("item_3"@, "arbalest"@, Gender::Neutral, false, false, "objects"@),
    ]
}

fn debug_entity(id: &str, name: &str, gender: Gender, is_plural: bool, is_proper_noun: bool, subset: &str) -> (r: DebugEntity)
    ensures
        debug_model(r) == (id@, name@, gender, is_plural, is_proper_noun, subset@),
{
    DebugEntity {
        id: String::from_str(id),
        name: String::from_str(name),
        gender,
        is_plural,
        is_proper_noun,
        subset: String::from_str(subset),
    }
}

/// A standard set of diverse entities for testing templates: the viewer, a male and two
/// female proper nouns, neutral common nouns, a plural, and three objects.
pub fn standard_test_entities() -> (r: Vec<DebugEntity>)
    ensures
        r@.map_values(|e: DebugEntity| debug_model(e)) == standard_entity_table(),
{
    let r = vec![
        debug_entity("viewer_1", "Aldran", Gender::Male, false, true, "actors"),
        debug_entity("char_2", "Elara", Gender::Female, false, true, "actors"),
        debug_entity("mob_1", "goblin", Gender::Neutral, false, false, "actors"),
        debug_entity("mob_2", "wolves", Gender::Plural, true, false, "actors"),
        debug_entity("item_1", "rusty sword", Gender::Neutral, false, false, "objects"),
        debug_entity("char_3", "Iris", Gender::Female, false, true, "actors"),
        debug_entity("mob_3", "octopus", Gender::Neutral, false, false, "actors"),
        debug_entity("item_2", "Excalibur", Gender::Neutral, false, true, "objects"),
        debug_entity("item_3", "arbalest", Gender::Neutral, false, false, "objects"),
    ];
    assert(r@.map_values(|e: DebugEntity| debug_model(e)) =~= standard_entity_table());
    r
}

} // verus!
