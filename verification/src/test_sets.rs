//! The entity sets and viewers that templates are tested with, built from a payload of
//! debug entities or from the standard entities, and the test over the standard ones.
use vstd::prelude::*;
use crate::debug::{
    debug_model, entity_of_model, standard_entity_table, standard_test_entities, DebugEntity, EntitiesPayload,
    SubsetConfig,
};
use crate::engine::PerspectiveEngine;
use crate::grammar::{string_views, VerbDictionary};
use crate::keymap::KeyMap;
use crate::models::{ActorStance, Gender, GroupEntity, TemplateEntity, Tense};
use crate::rendering::generated;
use crate::template::Template;
use crate::text::str_eq;

verus! {

/// The models of a list of debug entities.
pub open spec fn debug_models(es: Seq<DebugEntity>) -> Seq<(Seq<char>, Seq<char>, Gender, bool, bool, Seq<char>)> {
    es.map_values(|d: DebugEntity| debug_model(d))
}

/// Whether a subset lets its entities be the viewer: it does unless its configuration
/// says otherwise.
pub open spec fn viewer_capable(configs: Map<Seq<char>, SubsetConfig>, subset: Seq<char>) -> bool {
    !configs.contains_key(subset) || configs[subset].viewer_capable
}

/// The viewers that a set of entities is tested with: a bystander, then each entity whose
/// subset lets it view, in order.
pub open spec fn test_viewers(configs: Map<Seq<char>, SubsetConfig>, ms: Seq<(Seq<char>, Seq<char>, Gender, bool, bool, Seq<char>)>) -> Seq<Seq<char>>
    decreases ms.len(),
{
    if ms.len() == 0 {
        seq!["bystander_1"@]
    } else {
        let v = test_viewers(configs, ms.drop_last());
        if viewer_capable(configs, ms.last().5) {
            v.push(ms.last().0)
        } else {
            v
        }
    }
}

/// The models of the entities in one subset, in order.
pub open spec fn subset_members(ms: Seq<(Seq<char>, Seq<char>, Gender, bool, bool, Seq<char>)>, name: Seq<char>) -> Seq<(Seq<char>, Seq<char>, Gender, bool, bool, Seq<char>)> {
    ms.filter(|m: (Seq<char>, Seq<char>, Gender, bool, bool, Seq<char>)| m.5 == name)
}

/// Whether the template entities are those of the models, in order (see `entity_of_model`).
pub open spec fn entities_of_models(v: Seq<TemplateEntity>, ms: Seq<(Seq<char>, Seq<char>, Gender, bool, bool, Seq<char>)>) -> bool {
    v.len() == ms.len() && forall|i: int| 0 <= i < v.len() ==> entity_of_model(#[trigger] v[i], ms[i])
}

/// Whether `subsets` groups the entities by subset: one subset for each subset name that
/// an entity has, holding those entities in order.
pub open spec fn grouped_by_subset(subsets: Map<Seq<char>, Vec<TemplateEntity>>, ms: Seq<(Seq<char>, Seq<char>, Gender, bool, bool, Seq<char>)>) -> bool {
    forall|name: Seq<char>| #![trigger subsets.contains_key(name)]
        (subsets.contains_key(name) <==> exists|j: int| 0 <= j < ms.len() && (#[trigger] ms[j]).5 == name)
            && (subsets.contains_key(name) ==> entities_of_models(subsets[name]@, subset_members(ms, name)))
}

/// The template entities of the debug entities in one subset, in order.
fn members_of(es: &Vec<DebugEntity>, name: &str) -> (r: Vec<TemplateEntity>)
    ensures
        entities_of_models(r@, subset_members(debug_models(es@), name@)),
{
    let ghost ms = debug_models(es@);
    let mut r: Vec<TemplateEntity> = Vec::new();
    let mut i: usize = 0;
    assert(ms.take(0) =~= Seq::<(Seq<char>, Seq<char>, Gender, bool, bool, Seq<char>)>::empty());
    while i < es.len()
        invariant
            i <= es.len(),
            ms == debug_models(es@),
            entities_of_models(r@, subset_members(ms.take(i as int), name@)),
        decreases es.len() - i,
    {
        reveal(Seq::filter);
        let ghost before = subset_members(ms.take(i as int), name@);
        assert(ms.take(i + 1).drop_last() =~= ms.take(i as int));
        assert(ms.take(i + 1).last() == debug_model(es@[i as int]));
        if str_eq(es[i].subset.as_str(), name) {
            let e = es[i].to_entity();
            let ghost r0 = r@;
            r.push(e);
            assert(subset_members(ms.take(i + 1), name@) == before.push(debug_model(es@[i as int])));
            assert forall|k: int| 0 <= k < r@.len() implies entity_of_model(#[trigger] r@[k], subset_members(ms.take(i + 1), name@)[k]) by {
                if k < r0.len() {
                    assert(r@[k] == r0[k]);
                }
            }
        } else {
            assert(subset_members(ms.take(i + 1), name@) == before);
        }
        i = i + 1;
    }
    assert(ms.take(i as int) =~= ms);
    r
}

/// The viewers that the entities are tested with (see `test_viewers`).
fn viewers_of(configs: &KeyMap<SubsetConfig>, es: &Vec<DebugEntity>) -> (r: Vec<String>)
    ensures
        string_views(r@) == test_viewers(configs.map(), debug_models(es@)),
{
    let ghost ms = debug_models(es@);
    let mut r: Vec<String> = vec![String::from_str("bystander_1")];
    let mut i: usize = 0;
    assert(ms.take(0) =~= Seq::<(Seq<char>, Seq<char>, Gender, bool, bool, Seq<char>)>::empty());
    assert(string_views(r@) =~= seq!["bystander_1"@]);
    while i < es.len()
        invariant
            i <= es.len(),
            ms == debug_models(es@),
            string_views(r@) == test_viewers(configs.map(), ms.take(i as int)),
        decreases es.len() - i,
    {
        assert(ms.take(i + 1).drop_last() =~= ms.take(i as int));
        assert(ms.take(i + 1).last() == debug_model(es@[i as int]));
        let capable = match configs.get(es[i].subset.as_str()) {
            Some(c) => c.viewer_capable,
            None => true,
        };
        if capable {
            let ghost before = string_views(r@);
            r.push(es[i].id.clone());
            assert(string_views(r@) =~= before.push(es@[i as int].id@));
        }
        i = i + 1;
    }
    assert(ms.take(i as int) =~= ms);
    r
}

/// The entity sets and viewers that a payload is tested with: its entities grouped by
/// subset (`grouped_by_subset`), and a bystander followed by each entity whose subset lets
/// it view (`test_viewers`).
pub fn payload_test_entities(p: &EntitiesPayload) -> (r: (KeyMap<Vec<TemplateEntity>>, Vec<String>))
    ensures
        grouped_by_subset(r.0.map(), debug_models(p.entities@)),
        string_views(r.1@) == test_viewers(p.subsets.map(), debug_models(p.entities@)),
{
    let ghost ms = debug_models(p.entities@);
    let viewers = viewers_of(&p.subsets, &p.entities);
    let mut subsets: KeyMap<Vec<TemplateEntity>> = KeyMap::new();
    let mut i: usize = 0;
    while i < p.entities.len()
        invariant
            i <= p.entities.len(),
            ms == debug_models(p.entities@),
            forall|name: Seq<char>| #![trigger subsets.map().contains_key(name)]
                (subsets.map().contains_key(name) <==> exists|j: int| 0 <= j < i && (#[trigger] ms[j]).5 == name)
                    && (subsets.map().contains_key(name) ==> entities_of_models(subsets.map()[name]@, subset_members(ms, name))),
        decreases p.entities.len() - i,
    {
        let name = &p.entities[i].subset;
        assert(ms[i as int] == debug_model(p.entities@[i as int]));
        if !subsets.contains_key(name.as_str()) {
            let members = members_of(&p.entities, name.as_str());
            let ghost before = subsets.map();
            subsets.insert(name.clone(), members);
            assert forall|q: Seq<char>| #![trigger subsets.map().contains_key(q)]
                (subsets.map().contains_key(q) <==> exists|j: int| 0 <= j < i + 1 && (#[trigger] ms[j]).5 == q)
                    && (subsets.map().contains_key(q) ==> entities_of_models(subsets.map()[q]@, subset_members(ms, q))) by {
                if q != name@ {
                    assert(subsets.map().contains_key(q) == before.contains_key(q));
                    if exists|j: int| 0 <= j < i + 1 && (#[trigger] ms[j]).5 == q {
                        let j = choose|j: int| 0 <= j < i + 1 && (#[trigger] ms[j]).5 == q;
                        assert(j != i);
                    }
                }
            }
        } else {
            assert forall|q: Seq<char>| #![trigger subsets.map().contains_key(q)]
                (subsets.map().contains_key(q) <==> exists|j: int| 0 <= j < i + 1 && (#[trigger] ms[j]).5 == q)
                    && (subsets.map().contains_key(q) ==> entities_of_models(subsets.map()[q]@, subset_members(ms, q))) by {
                if exists|j: int| 0 <= j < i + 1 && (#[trigger] ms[j]).5 == q {
                    let j = choose|j: int| 0 <= j < i + 1 && (#[trigger] ms[j]).5 == q;
                    if j == i {
                        assert(subsets.map().contains_key(name@));
                    }
                }
            }
        }
        i = i + 1;
    }
    (subsets, viewers)
}

/// The subset configurations of the standard entities: actors may view, objects may not.
pub open spec fn standard_configs() -> Map<Seq<char>, SubsetConfig> {
    Map::<Seq<char>, SubsetConfig>::empty().insert("actors"@, SubsetConfig { viewer_capable: true }).insert(
        "objects"@,
        SubsetConfig { viewer_capable: false },
    )
}

/// Whether `subsets` and `viewers` are the standard test sets: the viewers of the standard
/// entities (`test_viewers`); an "objects" subset of the standard objects; and an "actors"
/// subset of the standard actors followed by a group, "group_1", of the first and the
/// third actor.
pub open spec fn standard_sets(subsets: Map<Seq<char>, Vec<TemplateEntity>>, viewers: Seq<String>) -> bool {
    let table = standard_entity_table();
    let actors = subset_members(table, "actors"@);
    &&& string_views(viewers) == test_viewers(standard_configs(), table)
    &&& forall|name: Seq<char>| #![trigger subsets.contains_key(name)] subsets.contains_key(name) <==> (name == "actors"@ || name == "objects"@)
    &&& entities_of_models(subsets["objects"@]@, subset_members(table, "objects"@))
    &&& subsets["actors"@]@.len() == actors.len() + 1
    &&& entities_of_models(subsets["actors"@]@.take(actors.len() as int), actors)
    &&& subsets["actors"@]@.last().id@ == "group_1"@
    &&& subsets["actors"@]@.last().members matches Some(ms) && entities_of_models(ms@, seq![table[0], table[2]])
}

/// Builds the standard test sets (see `standard_sets`).
pub fn standard_test_sets() -> (r: (KeyMap<Vec<TemplateEntity>>, Vec<String>))
    ensures
        standard_sets(r.0.map(), r.1@),
{
    let entities = standard_test_entities();
    let ghost table = standard_entity_table();
    assert(debug_models(entities@) =~= table);
    let mut configs: KeyMap<SubsetConfig> = KeyMap::new();
    configs.insert(String::from_str("actors"), SubsetConfig { viewer_capable: true });
    configs.insert(String::from_str("objects"), SubsetConfig { viewer_capable: false });
    assert(configs.map() =~= standard_configs());
    let viewers = viewers_of(&configs, &entities);
    let mut actors = members_of(&entities, "actors");
    let objects = members_of(&entities, "objects");
    let ghost plain = actors@;
    let m0 = entities[0].to_entity();
    let m2 = entities[2].to_entity();
    assert(debug_model(entities@[0]) == table[0]);
    assert(debug_model(entities@[2]) == table[2]);
    let members = vec![m0, m2];
    let group = GroupEntity::new(members).into_entity("group_1");
    actors.push(group);
    assert(actors@.take(plain.len() as int) =~= plain);
    let mut subsets: KeyMap<Vec<TemplateEntity>> = KeyMap::new();
    subsets.insert(String::from_str("actors"), actors);
    subsets.insert(String::from_str("objects"), objects);
    proof {
        reveal_strlit("actors");
        reveal_strlit("objects");
        assert("actors"@.len() != "objects"@.len());
    }
    (subsets, viewers)
}

/// The stances a template is tested in: first, second and third person.
pub open spec fn all_stances() -> Seq<ActorStance> {
    seq![ActorStance::FirstPerson, ActorStance::SecondPerson, ActorStance::ThirdPerson]
}

/// The tenses a template is tested in: present, past and future.
pub open spec fn all_tenses() -> Seq<Tense> {
    seq![Tense::Present, Tense::Past, Tense::Future]
}

impl PerspectiveEngine {
    /// Tests a template with the standard entities (`standard_sets`) in every stance and
    /// tense (see `generated`).
    pub fn test_template_with_standard_entities(
        template: &Template,
        bindings: &KeyMap<String>,
        lookahead: bool,
        custom: &VerbDictionary,
    ) -> (r: Result<Vec<String>, String>)
        ensures
            exists|subsets: KeyMap<Vec<TemplateEntity>>, viewers: Vec<String>|
                #![trigger standard_sets(subsets.map(), viewers@)]
                standard_sets(subsets.map(), viewers@)
                    && generated(*template, viewers@, all_stances(), all_tenses(), subsets.map(), bindings.map(), lookahead, custom.map(), r),
    {
        let (subsets, viewers) = standard_test_sets();
        let stances = vec![ActorStance::FirstPerson, ActorStance::SecondPerson, ActorStance::ThirdPerson];
        let tenses = vec![Tense::Present, Tense::Past, Tense::Future];
        assert(stances@ =~= all_stances());
        assert(tenses@ =~= all_tenses());
        let r = PerspectiveEngine::generate_template_permutations(template, &viewers, &stances, &tenses, &subsets, bindings, lookahead, custom);
        assert(standard_sets(subsets.map(), viewers@));
        r
    }
}

} // verus!
