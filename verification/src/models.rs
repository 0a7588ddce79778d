//! Core data structures for perspective rendering: grammatical categories, entities,
//! the anaphora memory and the rendering context.
use vstd::prelude::*;
use crate::grammar::{format_oxford_list, oxford_list, string_views};
use crate::text::{
    chars_of, find_key, first_index, keys_of, lemma_first_index, split_chars, split_on, str_eq,
    string_of, views,
};

verus! {

/// The grammatical gender of an entity, used for pronoun resolution.
///
/// `Plural` covers both literal swarms ("a pack of wolves") and singular entities
/// that use they/them pronouns.
#[derive(Debug, Clone, Copy, PartialEq, Eq, Structural)]
pub enum Gender {
    /// Male grammatical gender (he/him).
    Male,
    /// Female grammatical gender (she/her).
    Female,
    /// Neutral grammatical gender (it/its).
    Neutral,
    /// Plural grammatical gender (they/them).
    Plural,
}

/// The grammatical stance used to refer to the viewing entity.
#[derive(Debug, Clone, Copy, PartialEq, Eq, Structural)]
pub enum ActorStance {
    /// Refers to the viewer in the first person ("I", "me", "my").
    FirstPerson,
    /// Refers to the viewer in the second person ("you", "your"). This is the default.
    SecondPerson,
    /// Refers to the viewer in the third person by name (Director Stance).
    ThirdPerson,
}

/// The grammatical tense used to render a template.
#[derive(Debug, Clone, Copy, PartialEq, Eq, Structural)]
pub enum Tense {
    /// Present tense ("walks"). This is the default.
    Present,
    /// Past tense ("walked").
    Past,
    /// Future tense ("will walk").
    Future,
}

impl Default for ActorStance {
    fn default() -> (r: Self)
        ensures
            r == ActorStance::SecondPerson,
    {
        ActorStance::SecondPerson
    }
}

impl Default for Tense {
    fn default() -> (r: Self)
        ensures
            r == Tense::Present,
    {
        Tense::Present
    }
}

/// The deepest nesting of groups that is followed when groups are flattened.
pub const MAX_GROUP_DEPTH: usize = 16;

/// A game object or character that templates can refer to.
///
/// Everything the engine reads from an entity is held here as plain data. The
/// perspective-dependent answers (does the entity contain a viewer, what does a viewer
/// call it, is it a proper noun to that viewer) come from per-viewer tables with a
/// default. An entity with `members` is a group: its viewer, name, gender and plurality
/// are derived from its members, as `GroupEntity` describes.
#[derive(Debug)]
pub struct TemplateEntity {
    /// The identity of the entity: two references denote the same entity exactly when
    /// their ids are equal.
    pub id: String,
    /// The viewer ids that this entity represents (itself, or a player controlling it).
    pub viewer_ids: Vec<String>,
    /// The grammatical gender used for pronouns.
    pub gender: Gender,
    /// Whether the entity is grammatically plural.
    pub plural: bool,
    /// The name shown to viewers without an entry in `names_for`.
    pub name: String,
    /// Per-viewer names (viewer id, name); the first entry for a viewer wins.
    pub names_for: Vec<(String, String)>,
    /// An optional longer description used to tell apart entities with the same name.
    pub long_name: Option<String>,
    /// An optional collective noun for plural ordinal phrasing ("a third pack of wolves").
    pub collective: Option<String>,
    /// Adjectives that describe the entity and may be used to target it.
    pub adjective_words: Option<Vec<String>>,
    /// Adjective synonyms accepted when targeting the entity.
    pub synonym_words: Option<Vec<String>>,
    /// Whether the name is a proper noun for viewers without an entry in `proper_noun_for`.
    pub proper_noun: bool,
    /// Per-viewer proper-noun answers (viewer id, answer).
    pub proper_noun_for: Vec<(String, bool)>,
    /// Alternative names that players may use to target the entity.
    pub alias_words: Option<Vec<String>>,
    /// Named sub-entities reachable with dot notation ("source.weapon").
    pub properties: Vec<(String, TemplateEntity)>,
    /// Named text properties read by variable tags and conditions ("source.color"); the
    /// first entry for a name wins.
    pub string_properties: Vec<(String, String)>,
    /// The names of the conditions that hold for the entity ("source.is_hidden" in a
    /// condition tests whether "is_hidden" is among them).
    pub conditions: Vec<String>,
    /// The members, when this entity is a group.
    pub members: Option<Vec<TemplateEntity>>,
}

/// Whether one of the ids is `v`.
pub open spec fn has_id(ids: Seq<String>, v: Seq<char>) -> bool {
    exists|i: int| 0 <= i < ids.len() && #[trigger] ids[i]@ == v
}

/// Whether the entity represents viewer `v` (for a group: whether any member does).
pub open spec fn contains_viewer_spec(e: TemplateEntity, v: Seq<char>) -> bool
    decreases e,
{
    match e.members {
        Some(ms) => any_contains_viewer(ms@, v),
        None => has_id(e.viewer_ids@, v),
    }
}

/// Whether any of the entities represents viewer `v`.
pub open spec fn any_contains_viewer(ms: Seq<TemplateEntity>, v: Seq<char>) -> bool
    decreases ms,
{
    if ms.len() == 0 {
        false
    } else {
        contains_viewer_spec(ms[0], v) || any_contains_viewer(ms.drop_first(), v)
    }
}

/// The leaves of a list of entities, following nested groups to `MAX_GROUP_DEPTH`;
/// groups nested deeper are dropped.
pub open spec fn flat_leaves(ms: Seq<TemplateEntity>, depth: nat) -> Seq<TemplateEntity>
    decreases 17 - depth, ms.len(),
{
    if depth > 16 || ms.len() == 0 {
        seq![]
    } else {
        (match ms[0].members {
            Some(g) => flat_leaves(g@, depth + 1),
            None => seq![ms[0]],
        }) + flat_leaves(ms.drop_first(), depth)
    }
}

/// The single leaf of a group, if flattening it yields exactly one.
pub open spec fn single_leaf(ms: Seq<TemplateEntity>) -> Option<TemplateEntity> {
    let f = flat_leaves(ms, 0);
    if f.len() == 1 { Some(f[0]) } else { None }
}

/// The value paired with the first occurrence of key `k`.
pub open spec fn lookup<T>(v: Seq<(String, T)>, k: Seq<char>) -> Option<T> {
    match first_index(keys_of(v), k) {
        Some(i) => Some(v[i].1),
        None => None,
    }
}

/// The name a viewer sees for a single (non-group) entity.
pub open spec fn leaf_name(e: TemplateEntity, v: Seq<char>) -> Seq<char> {
    match lookup(e.names_for@, v) {
        Some(n) => n@,
        None => e.name@,
    }
}

/// The gender of an entity; a group takes the gender of its single leaf, or `Plural`.
pub open spec fn gender_spec(e: TemplateEntity) -> Gender {
    match e.members {
        Some(ms) => match single_leaf(ms@) {
            Some(l) => l.gender,
            None => Gender::Plural,
        },
        None => e.gender,
    }
}

/// The plurality of an entity; a group is plural unless it has a single singular leaf.
pub open spec fn plural_spec(e: TemplateEntity) -> bool {
    match e.members {
        Some(ms) => match single_leaf(ms@) {
            Some(l) => l.plural,
            None => true,
        },
        None => e.plural,
    }
}

/// Whether a single entity's name is a proper noun for viewer `v`.
pub open spec fn leaf_proper(e: TemplateEntity, v: Seq<char>) -> bool {
    match lookup(e.proper_noun_for@, v) {
        Some(b) => b,
        None => e.proper_noun,
    }
}

/// Whether an entity's name is a proper noun for viewer `v`; a group counts as one
/// unless it has a single leaf that is not.
pub open spec fn proper_spec(e: TemplateEntity, v: Seq<char>) -> bool {
    match e.members {
        Some(ms) => match single_leaf(ms@) {
            Some(l) => leaf_proper(l, v),
            None => true,
        },
        None => leaf_proper(e, v),
    }
}

/// The last leaf that represents the viewer.
pub open spec fn last_viewer_leaf(f: Seq<TemplateEntity>, v: Seq<char>) -> Option<TemplateEntity>
    decreases f.len(),
{
    if f.len() == 0 {
        None
    } else if has_id(f.last().viewer_ids@, v) {
        Some(f.last())
    } else {
        last_viewer_leaf(f.drop_last(), v)
    }
}

/// The non-empty names of the leaves that do not represent the viewer, in order.
pub open spec fn other_names(f: Seq<TemplateEntity>, v: Seq<char>) -> Seq<Seq<char>>
    decreases f.len(),
{
    if f.len() == 0 {
        seq![]
    } else {
        let rest = other_names(f.drop_last(), v);
        if !has_id(f.last().viewer_ids@, v) && leaf_name(f.last(), v).len() > 0 {
            rest.push(leaf_name(f.last(), v))
        } else {
            rest
        }
    }
}

/// The names that a group's display name lists: the viewer's own name first (when it is
/// not empty), then every other member's non-empty name.
pub open spec fn group_names(ms: Seq<TemplateEntity>, v: Seq<char>) -> Seq<Seq<char>> {
    let f = flat_leaves(ms, 0);
    let head: Seq<Seq<char>> = match last_viewer_leaf(f, v) {
        Some(l) => if leaf_name(l, v).len() > 0 { seq![leaf_name(l, v)] } else { seq![] },
        None => seq![],
    };
    head + other_names(f, v)
}

/// The name a viewer sees for an entity; a group is listed with an Oxford comma.
pub open spec fn name_spec(e: TemplateEntity, v: Seq<char>) -> Seq<char> {
    match e.members {
        Some(ms) => oxford_list(group_names(ms@, v), "and"@),
        None => leaf_name(e, v),
    }
}

/// The entity reached from `e` by the property `name`.
pub open spec fn property_spec(e: TemplateEntity, name: Seq<char>) -> Option<TemplateEntity> {
    match e.members {
        Some(_) => None,
        None => lookup(e.properties@, name),
    }
}

/// The aliases of an entity; a group has those of its single leaf.
pub open spec fn aliases_spec(e: TemplateEntity) -> Option<Seq<Seq<char>>> {
    let own = |x: TemplateEntity| match x.alias_words {
        Some(a) => Some(string_views(a@)),
        None => None,
    };
    match e.members {
        Some(ms) => match single_leaf(ms@) {
            Some(l) => own(l),
            None => None,
        },
        None => own(e),
    }
}

/// The adjectives of an entity (none for a group).
pub open spec fn adjectives_spec(e: TemplateEntity) -> Option<Seq<Seq<char>>> {
    match (e.members, e.adjective_words) {
        (None, Some(a)) => Some(string_views(a@)),
        _ => None,
    }
}

/// The adjective synonyms of an entity (none for a group).
pub open spec fn synonyms_spec(e: TemplateEntity) -> Option<Seq<Seq<char>>> {
    match (e.members, e.synonym_words) {
        (None, Some(a)) => Some(string_views(a@)),
        _ => None,
    }
}

/// The long name of an entity (none for a group).
pub open spec fn long_name_spec(e: TemplateEntity) -> Option<Seq<char>> {
    match (e.members, e.long_name) {
        (None, Some(n)) => Some(n@),
        _ => None,
    }
}

/// The collective noun of an entity (none for a group).
pub open spec fn collective_spec(e: TemplateEntity) -> Option<Seq<char>> {
    match (e.members, e.collective) {
        (None, Some(n)) => Some(n@),
        _ => None,
    }
}

fn ids_contain(ids: &Vec<String>, v: &str) -> (r: bool)
    ensures
        r == has_id(ids@, v@),
{
    let mut i: usize = 0;
    while i < ids.len()
        invariant
            i <= ids.len(),
            forall|j: int| 0 <= j < i ==> ids@[j]@ != v@,
        decreases ids.len() - i,
    {
        if str_eq(ids[i].as_str(), v) {
            assert(ids@[i as int]@ == v@);
            return true;
        }
        i = i + 1;
    }
    false
}

pub(crate) fn clone_strings(v: &Vec<String>) -> (r: Vec<String>)
    ensures
        string_views(r@) == string_views(v@),
{
    let mut r: Vec<String> = Vec::new();
    let mut i: usize = 0;
    while i < v.len()
        invariant
            i <= v.len(),
            string_views(r@) == string_views(v@).take(i as int),
        decreases v.len() - i,
    {
        let s = v[i].clone();
        let ghost before = string_views(r@);
        r.push(s);
        assert(string_views(r@) =~= before.push(v@[i as int]@));
        i = i + 1;
        assert(string_views(r@) =~= string_views(v@).take(i as int));
    }
    assert(string_views(v@).take(v.len() as int) =~= string_views(v@));
    r
}

fn clone_string_opt(v: &Option<Vec<String>>) -> (r: Option<Vec<String>>)
    ensures
        match (r, *v) {
            (Some(a), Some(b)) => string_views(a@) == string_views(b@),
            (None, None) => true,
            _ => false,
        },
{
    match v {
        Some(a) => Some(clone_strings(a)),
        None => None,
    }
}

impl TemplateEntity {
    /// Creates a single entity with a name, gender, plurality and proper-noun flag, which
    /// represents no viewer and has no per-viewer names, descriptions or properties.
    pub fn new(id: &str, name: &str, gender: Gender, is_plural: bool, is_proper_noun: bool) -> (r: Self)
        ensures
            r.id@ == id@,
            r.name@ == name@,
            r.gender == gender,
            r.plural == is_plural,
            r.proper_noun == is_proper_noun,
            r.viewer_ids@.len() == 0,
            r.names_for@.len() == 0,
            r.proper_noun_for@.len() == 0,
            r.properties@.len() == 0,
            r.string_properties@.len() == 0,
            r.conditions@.len() == 0,
            r.long_name is None,
            r.collective is None,
            r.adjective_words is None,
            r.synonym_words is None,
            r.alias_words is None,
            r.members is None,
    {
        TemplateEntity {
            id: String::from_str(id),
            viewer_ids: Vec::new(),
            gender,
            plural: is_plural,
            name: String::from_str(name),
            names_for: Vec::new(),
            long_name: None,
            collective: None,
            adjective_words: None,
            synonym_words: None,
            proper_noun: is_proper_noun,
            proper_noun_for: Vec::new(),
            alias_words: None,
            properties: Vec::new(),
            string_properties: Vec::new(),
            conditions: Vec::new(),
            members: None,
        }
    }

    /// Evaluates whether `viewer_id` represents this entity or is a part of it (for a group,
    /// a member).
    pub fn contains_viewer(&self, viewer_id: &str) -> (r: bool)
        ensures
            r == contains_viewer_spec(*self, viewer_id@),
        decreases *self,
    {
        match &self.members {
            Some(ms) => {
                let mut i: usize = 0;
                assert(ms@.skip(0) =~= ms@);
                while i < ms.len()
                    invariant
                        i <= ms.len(),
                        self.members == Some(*ms),
                        contains_viewer_spec(*self, viewer_id@) == any_contains_viewer(
                            ms@.skip(i as int),
                            viewer_id@,
                        ),
                    decreases ms.len() - i,
                {
                    assert(ms@.skip(i as int).drop_first() =~= ms@.skip(i + 1));
                    if ms[i].contains_viewer(viewer_id) {
                        return true;
                    }
                    i = i + 1;
                }
                assert(ms@.skip(i as int) =~= Seq::<TemplateEntity>::empty());
                false
            },
            None => ids_contain(&self.viewer_ids, viewer_id),
        }
    }

    /// The single leaf of this group, if it has exactly one.
    fn single_leaf_member(&self) -> (r: Option<&TemplateEntity>)
        requires
            self.members is Some,
        ensures
            match r {
                Some(l) => single_leaf(self.members->0@) == Some(*l),
                None => single_leaf(self.members->0@) is None,
            },
    {
        match &self.members {
            Some(ms) => {
                let mut flat: Vec<&TemplateEntity> = Vec::new();
                flatten_group(ms, &mut flat, 0);
                assert(flat@.map_values(|r: &TemplateEntity| *r) == flat_leaves(ms@, 0));
                if flat.len() == 1 {
                    assert(*flat@[0] == flat_leaves(ms@, 0)[0]);
                    Some(flat[0])
                } else {
                    None
                }
            },
            None => None,
        }
    }

    /// Returns the grammatical gender used for pronoun resolution.
    pub fn gender(&self) -> (r: Gender)
        ensures
            r == gender_spec(*self),
    {
        match &self.members {
            Some(_) => match self.single_leaf_member() {
                Some(l) => l.gender,
                None => Gender::Plural,
            },
            None => self.gender,
        }
    }

    /// Determines if the entity is treated as grammatically plural.
    pub fn is_plural(&self) -> (r: bool)
        ensures
            r == plural_spec(*self),
    {
        match &self.members {
            Some(_) => match self.single_leaf_member() {
                Some(l) => l.plural,
                None => true,
            },
            None => self.plural,
        }
    }

    fn leaf_display_name(&self, viewer_id: &str) -> (r: String)
        ensures
            r@ == leaf_name(*self, viewer_id@),
    {
        match find_key(&self.names_for, viewer_id) {
            Some(i) => self.names_for[i].1.clone(),
            None => self.name.clone(),
        }
    }

    fn leaf_is_proper(&self, viewer_id: &str) -> (r: bool)
        ensures
            r == leaf_proper(*self, viewer_id@),
    {
        match find_key(&self.proper_noun_for, viewer_id) {
            Some(i) => self.proper_noun_for[i].1,
            None => self.proper_noun,
        }
    }

    /// Returns the name of the entity as the observer sees it; a group lists its members
    /// with an Oxford comma, the observer first.
    pub fn display_name_for(&self, viewer_id: &str) -> (r: String)
        ensures
            r@ == name_spec(*self, viewer_id@),
    {
        match &self.members {
            Some(ms) => group_display_name(ms, viewer_id),
            None => self.leaf_display_name(viewer_id),
        }
    }

    /// Returns the optional long description of the entity.
    pub fn long_display_name_for(&self, viewer_id: &str) -> (r: Option<String>)
        ensures
            match r {
                Some(s) => long_name_spec(*self) == Some(s@),
                None => long_name_spec(*self) is None,
            },
    {
        match (&self.members, &self.long_name) {
            (None, Some(n)) => Some(n.clone()),
            _ => None,
        }
    }

    /// Returns the optional collective noun used for plural ordinals.
    pub fn collective_noun(&self) -> (r: Option<String>)
        ensures
            match r {
                Some(s) => collective_spec(*self) == Some(s@),
                None => collective_spec(*self) is None,
            },
    {
        match (&self.members, &self.collective) {
            (None, Some(n)) => Some(n.clone()),
            _ => None,
        }
    }

    /// Returns the adjectives that describe the entity.
    pub fn adjectives(&self) -> (r: Option<Vec<String>>)
        ensures
            match r {
                Some(a) => adjectives_spec(*self) == Some(string_views(a@)),
                None => adjectives_spec(*self) is None,
            },
    {
        match (&self.members, &self.adjective_words) {
            (None, Some(a)) => Some(clone_strings(a)),
            _ => None,
        }
    }

    /// Returns the adjective synonyms accepted when targeting the entity.
    pub fn adjective_synonyms(&self) -> (r: Option<Vec<String>>)
        ensures
            match r {
                Some(a) => synonyms_spec(*self) == Some(string_views(a@)),
                None => synonyms_spec(*self) is None,
            },
    {
        match (&self.members, &self.synonym_words) {
            (None, Some(a)) => Some(clone_strings(a)),
            _ => None,
        }
    }

    /// Determines if the entity's current identity is a proper noun to the observer.
    pub fn is_proper_noun_for(&self, viewer_id: &str) -> (r: bool)
        ensures
            r == proper_spec(*self, viewer_id@),
    {
        match &self.members {
            Some(_) => match self.single_leaf_member() {
                Some(l) => l.leaf_is_proper(viewer_id),
                None => true,
            },
            None => self.leaf_is_proper(viewer_id),
        }
    }

    /// Returns the members if the entity is a group.
    pub fn group_members(&self) -> (r: Option<&Vec<TemplateEntity>>)
        ensures
            match r {
                Some(ms) => self.members == Some(*ms),
                None => self.members is None,
            },
    {
        match &self.members {
            Some(ms) => Some(ms),
            None => None,
        }
    }

    /// Retrieves a named sub-entity (dot notation in templates).
    pub fn get_property(&self, property_name: &str) -> (r: Option<&TemplateEntity>)
        ensures
            match r {
                Some(p) => property_spec(*self, property_name@) == Some(*p),
                None => property_spec(*self, property_name@) is None,
            },
    {
        match &self.members {
            Some(_) => None,
            None => match find_key(&self.properties, property_name) {
                Some(i) => Some(&self.properties[i].1),
                None => None,
            },
        }
    }

    /// Returns the alternative names that players may use to target the entity.
    pub fn aliases(&self) -> (r: Option<Vec<String>>)
        ensures
            match r {
                Some(a) => aliases_spec(*self) == Some(string_views(a@)),
                None => aliases_spec(*self) is None,
            },
    {
        match &self.members {
            Some(_) => match self.single_leaf_member() {
                Some(l) => clone_string_opt(&l.alias_words),
                None => None,
            },
            None => clone_string_opt(&self.alias_words),
        }
    }
}

/// Recursively flattens nested groups into a list of leaf entities; groups deeper than
/// `MAX_GROUP_DEPTH` contribute nothing.
pub fn flatten_group<'c>(members: &'c Vec<TemplateEntity>, flat: &mut Vec<&'c TemplateEntity>, depth: usize)
    ensures
        final(flat)@.map_values(|r: &TemplateEntity| *r) == old(flat)@.map_values(
            |r: &TemplateEntity| *r,
        ) + flat_leaves(members@, depth as nat),
    decreases 17 - depth, members.len(),
{
    if depth > MAX_GROUP_DEPTH {
        assert(flat_leaves(members@, depth as nat) =~= Seq::<TemplateEntity>::empty());
        assert(flat@.map_values(|r: &TemplateEntity| *r) =~= flat@.map_values(|r: &TemplateEntity| *r) + Seq::<TemplateEntity>::empty());
        return;
    }
    let ghost start = flat@.map_values(|r: &TemplateEntity| *r);
    let mut i: usize = 0;
    assert(members@.skip(0) =~= members@);
    while i < members.len()
        invariant
            depth <= 16,
            i <= members.len(),
            start + flat_leaves(members@, depth as nat) == flat@.map_values(|r: &TemplateEntity| *r) + flat_leaves(members@.skip(i as int), depth as nat),
        decreases members.len() - i,
    {
        let ghost before = flat@.map_values(|r: &TemplateEntity| *r);
        let m = &members[i];
        let ghost rest = members@.skip(i as int);
        assert(rest.drop_first() =~= members@.skip(i + 1));
        assert(rest[0] == *m);
        match &m.members {
            Some(g) => {
                flatten_group_nested(g, flat, depth + 1);
            },
            None => {
                flat.push(m);
                assert(flat@.map_values(|r: &TemplateEntity| *r) =~= before + seq![*m]);
            },
        }
        i = i + 1;
        assert(before + flat_leaves(rest, depth as nat) =~= flat@.map_values(|r: &TemplateEntity| *r) + flat_leaves(members@.skip(i as int), depth as nat));
    }
    assert(members@.skip(i as int) =~= Seq::<TemplateEntity>::empty());
    assert(flat@.map_values(|r: &TemplateEntity| *r) + Seq::<TemplateEntity>::empty() =~= flat@.map_values(|r: &TemplateEntity| *r));
}

fn flatten_group_nested<'c>(members: &'c Vec<TemplateEntity>, flat: &mut Vec<&'c TemplateEntity>, depth: usize)
    requires
        1 <= depth <= 17,
    ensures
        final(flat)@.map_values(|r: &TemplateEntity| *r) == old(flat)@.map_values(
            |r: &TemplateEntity| *r,
        ) + flat_leaves(members@, depth as nat),
    decreases 17 - depth + 1, 0nat,
{
    flatten_group(members, flat, depth);
}

fn last_viewer_leaf_exec<'c>(flat: &Vec<&'c TemplateEntity>, viewer_id: &str) -> (r: Option<&'c TemplateEntity>)
    ensures
        match r {
            Some(l) => last_viewer_leaf(flat@.map_values(|x: &TemplateEntity| *x), viewer_id@) == Some(*l),
            None => last_viewer_leaf(flat@.map_values(|x: &TemplateEntity| *x), viewer_id@) is None,
        },
{
    let ghost f = flat@.map_values(|x: &TemplateEntity| *x);
    let mut k: usize = flat.len();
    assert(f.take(k as int) =~= f);
    while k > 0
        invariant
            k <= flat.len(),
            f == flat@.map_values(|x: &TemplateEntity| *x),
            last_viewer_leaf(f, viewer_id@) == last_viewer_leaf(f.take(k as int), viewer_id@),
        decreases k,
    {
        let ghost pre = f.take(k as int);
        assert(pre.last() == *flat@[k - 1]);
        assert(pre.drop_last() =~= f.take(k - 1));
        if ids_contain(&flat[k - 1].viewer_ids, viewer_id) {
            return Some(flat[k - 1]);
        }
        k = k - 1;
    }
    assert(f.take(0) =~= Seq::<TemplateEntity>::empty());
    None
}

/// The display name of a group of entities as seen by `viewer_id`.
fn group_display_name(ms: &Vec<TemplateEntity>, viewer_id: &str) -> (r: String)
    ensures
        r@ == oxford_list(group_names(ms@, viewer_id@), "and"@),
{
    let mut flat: Vec<&TemplateEntity> = Vec::new();
    flatten_group(ms, &mut flat, 0);
    let ghost f = flat@.map_values(|x: &TemplateEntity| *x);
    assert(f =~= flat_leaves(ms@, 0));
    let mut names: Vec<String> = Vec::new();
    match last_viewer_leaf_exec(&flat, viewer_id) {
        Some(l) => {
            let n = l.leaf_display_name(viewer_id);
            if n.unicode_len() > 0 {
                names.push(n);
            }
        },
        None => {},
    }
    let ghost head = string_views(names@);
    let mut i: usize = 0;
    while i < flat.len()
        invariant
            i <= flat.len(),
            f == flat@.map_values(|x: &TemplateEntity| *x),
            string_views(names@) == head + other_names(f.take(i as int), viewer_id@),
        decreases flat.len() - i,
    {
        let ghost pre = f.take((i + 1) as int);
        assert(pre.drop_last() =~= f.take(i as int));
        assert(pre.last() == *flat@[i as int]);
        let leaf = flat[i];
        if !ids_contain(&leaf.viewer_ids, viewer_id) {
            let n = leaf.leaf_display_name(viewer_id);
            if n.unicode_len() > 0 {
                let ghost before = string_views(names@);
                names.push(n);
                assert(string_views(names@) =~= before.push(n@));
            }
        }
        i = i + 1;
    }
    assert(f.take(flat.len() as int) =~= f);
    assert(string_views(names@) =~= group_names(ms@, viewer_id@));
    format_oxford_list(names, "and")
}

/// The leaves that do not represent the viewer and have a non-empty name, with that name,
/// in order.
pub open spec fn visible_members(f: Seq<TemplateEntity>, v: Seq<char>) -> Seq<(TemplateEntity, Seq<char>)>
    decreases f.len(),
{
    if f.len() == 0 {
        seq![]
    } else {
        let rest = visible_members(f.drop_last(), v);
        if !has_id(f.last().viewer_ids@, v) && leaf_name(f.last(), v).len() > 0 {
            rest.push((f.last(), leaf_name(f.last(), v)))
        } else {
            rest
        }
    }
}

/// The entities and name views of a list of named member references.
pub open spec fn member_views(v: Seq<(&TemplateEntity, String)>) -> Seq<(TemplateEntity, Seq<char>)> {
    v.map_values(|p: (&TemplateEntity, String)| (*p.0, p.1@))
}

/// Splits the leaves of a group into the one that represents the viewer (the last such
/// leaf) and the others that have a name the viewer sees, with that name.
pub fn partition_group<'c>(members: &'c Vec<TemplateEntity>, viewer_id: &str) -> (r: (Option<&'c TemplateEntity>, Vec<(&'c TemplateEntity, String)>))
    ensures
        match r.0 {
            Some(l) => last_viewer_leaf(flat_leaves(members@, 0), viewer_id@) == Some(*l),
            None => last_viewer_leaf(flat_leaves(members@, 0), viewer_id@) is None,
        },
        member_views(r.1@) == visible_members(flat_leaves(members@, 0), viewer_id@),
{
    let mut flat: Vec<&TemplateEntity> = Vec::new();
    flatten_group(members, &mut flat, 0);
    let ghost f = flat@.map_values(|x: &TemplateEntity| *x);
    assert(f =~= flat_leaves(members@, 0));
    let viewer = last_viewer_leaf_exec(&flat, viewer_id);
    let mut others: Vec<(&TemplateEntity, String)> = Vec::new();
    let mut i: usize = 0;
    assert(f.take(0) =~= Seq::<TemplateEntity>::empty());
    while i < flat.len()
        invariant
            i <= flat.len(),
            f == flat@.map_values(|x: &TemplateEntity| *x),
            member_views(others@) == visible_members(f.take(i as int), viewer_id@),
        decreases flat.len() - i,
    {
        let ghost pre = f.take((i + 1) as int);
        assert(pre.drop_last() =~= f.take(i as int));
        assert(pre.last() == *flat@[i as int]);
        let leaf = flat[i];
        if !ids_contain(&leaf.viewer_ids, viewer_id) {
            let n = leaf.leaf_display_name(viewer_id);
            if n.unicode_len() > 0 {
                let ghost before = member_views(others@);
                others.push((leaf, n));
                assert(member_views(others@) =~= before.push((*leaf, leaf_name(*leaf, viewer_id@))));
            }
        }
        i = i + 1;
    }
    assert(f.take(flat.len() as int) =~= f);
    (viewer, others)
}

/// A group of entities that is rendered as an Oxford-comma list and treated as plural,
/// unless it holds a single member.
pub struct GroupEntity {
    /// The entities that make up the group.
    pub members: Vec<TemplateEntity>,
}

impl GroupEntity {
    /// Creates a new group of entities.
    pub fn new(members: Vec<TemplateEntity>) -> (r: Self)
        ensures
            r.members == members,
    {
        GroupEntity { members }
    }

    /// The group as an entity that can be placed in a rendering context; its identity is
    /// the given id.
    pub fn into_entity(self, id: &str) -> (r: TemplateEntity)
        ensures
            r.id@ == id@,
            r.members == Some(self.members),
    {
        let mut e = TemplateEntity::new(id, "", Gender::Plural, true, true);
        e.members = Some(self.members);
        e
    }
}

/// Compares two entities by their ids: distinct entities that share an id count as the
/// same.
pub fn is_same_entity(a: &TemplateEntity, b: &TemplateEntity) -> (r: bool)
    ensures
        r == (a.id@ == b.id@),
{
    str_eq(a.id.as_str(), b.id.as_str())
}

// ---------------------------------------------------------------------------
// Property paths
// ---------------------------------------------------------------------------

/// The entity reached by following the property names in `segs` from `e`.
pub open spec fn path_target(e: TemplateEntity, segs: Seq<Seq<char>>) -> Option<TemplateEntity>
    decreases segs.len(),
{
    if segs.len() == 0 {
        Some(e)
    } else {
        match property_spec(e, segs[0]) {
            Some(n) => path_target(n, segs.drop_first()),
            None => None,
        }
    }
}

/// Follows a dot-separated property path ("weapon.hilt") from an entity.
pub fn resolve_entity_path<'c>(current: &'c TemplateEntity, path: &str) -> (r: Option<&'c TemplateEntity>)
    ensures
        match r {
            Some(x) => path_target(*current, split_on(path@, '.')) == Some(*x),
            None => path_target(*current, split_on(path@, '.')) is None,
        },
{
    let pv = chars_of(path);
    let segs = split_chars(&pv, '.');
    let ghost all = views(segs@);
    let mut cur: &TemplateEntity = current;
    let mut i: usize = 0;
    assert(all.skip(0) =~= all);
    while i < segs.len()
        invariant
            i <= segs.len(),
            all == views(segs@),
            all == split_on(path@, '.'),
            path_target(*current, all) == path_target(*cur, all.skip(i as int)),
        decreases segs.len() - i,
    {
        assert(all.skip(i as int).drop_first() =~= all.skip(i + 1));
        assert(all.skip(i as int)[0] == segs@[i as int]@);
        let name = string_of(&segs[i]);
        let ghost rest = all.skip(i as int);
        assert(name@ == rest[0]);
        match cur.get_property(name.as_str()) {
            Some(next) => {
                assert(path_target(*cur, rest) == path_target(*next, rest.drop_first()));
                cur = next;
            },
            None => {
                assert(path_target(*cur, rest) is None);
                assert(all == split_on(path@, '.'));
                assert(path_target(*current, split_on(path@, '.')) is None);
                return None;
            },
        }
        i = i + 1;
    }
    assert(all.skip(i as int) =~= Seq::<Seq<char>>::empty());
    Some(cur)
}

/// A matched entity and an optional sub-element path requested by the user.
#[derive(Debug)]
pub struct TargetMatch<'a> {
    /// The template key of the matched entity.
    pub key: String,
    /// The matched entity.
    pub entity: &'a TemplateEntity,
    /// An optional path to a sub-element ("sword" in "Aldran's sword").
    pub path: Option<String>,
    /// True if a `path` is present but the entity could not confirm that it exists.
    pub path_uncertain: bool,
}

impl<'a> TargetMatch<'a> {
    /// Returns the deepest sub-element requested by the path, the matched entity itself
    /// when there is no path, and `None` when the path does not exist.
    pub fn resolve_deep_entity(&self) -> (r: Option<&'a TemplateEntity>)
        ensures
            match self.path {
                Some(p) => match r {
                    Some(x) => path_target(*self.entity, split_on(p@, '.')) == Some(*x),
                    None => path_target(*self.entity, split_on(p@, '.')) is None,
                },
                None => r == Some(self.entity),
            },
    {
        match &self.path {
            Some(p) => resolve_entity_path(self.entity, p.as_str()),
            None => Some(self.entity),
        }
    }
}

// ---------------------------------------------------------------------------
// Anaphora memory
// ---------------------------------------------------------------------------

/// The sentinel viewer id under which the engine renders the Director Stance.
pub const NULL_VIEWER: &'static str = "\0__MUD_PERSPECTIVE_NULL_VIEWER__\0";

/// Cached boolean properties of a recently mentioned entity.
#[derive(Clone, Copy, Debug, PartialEq, Eq, Structural)]
pub struct RecentEntityFlags {
    /// The cached grammatical plurality.
    pub is_plural: bool,
    /// Whether the entity contains the context's viewer.
    pub is_viewer_normal: bool,
    /// Whether the entity contains the Director-Stance sentinel viewer.
    pub is_viewer_forced: bool,
    /// Whether the entity is protected from eviction.
    pub is_pinned: bool,
}

/// Cached properties of a recently mentioned entity.
#[derive(Debug)]
pub struct RecentEntity {
    /// The template key of the entity.
    pub key: String,
    /// The cached grammatical gender.
    pub gender: Gender,
    /// The cached flags.
    pub flags: RecentEntityFlags,
    /// Inline adjectives injected during rendering.
    pub adjectives: Vec<String>,
    /// The most recent non-pronoun name used for the entity.
    pub resolved_name: Option<String>,
}

/// The plain-value model of a `RecentEntity`.
pub struct RecentModel {
    /// The key.
    pub key: Seq<char>,
    /// The gender.
    pub gender: Gender,
    /// The flags.
    pub flags: RecentEntityFlags,
    /// The inline adjectives.
    pub adjectives: Seq<Seq<char>>,
    /// The most recent name.
    pub resolved_name: Option<Seq<char>>,
}

/// The view of an optional string.
pub open spec fn opt_view(o: Option<String>) -> Option<Seq<char>> {
    match o {
        Some(s) => Some(s@),
        None => None,
    }
}

impl View for RecentEntity {
    type V = RecentModel;

    open spec fn view(&self) -> RecentModel {
        RecentModel {
            key: self.key@,
            gender: self.gender,
            flags: self.flags,
            adjectives: string_views(self.adjectives@),
            resolved_name: opt_view(self.resolved_name),
        }
    }
}

pub(crate) fn clone_opt_string(o: &Option<String>) -> (r: Option<String>)
    ensures
        opt_view(r) == opt_view(*o),
{
    match o {
        Some(s) => Some(s.clone()),
        None => None,
    }
}

impl RecentEntity {
    /// A copy of the entry.
    pub fn duplicate(&self) -> (r: Self)
        ensures
            r@ == self@,
    {
        RecentEntity {
            key: self.key.clone(),
            gender: self.gender,
            flags: self.flags,
            adjectives: clone_strings(&self.adjectives),
            resolved_name: clone_opt_string(&self.resolved_name),
        }
    }
}

/// The models of a list of recent entities.
pub open spec fn recent_views(rs: Seq<RecentEntity>) -> Seq<RecentModel> {
    rs.map_values(|r: RecentEntity| r@)
}

/// The keys of a list of recent-entity models.
pub open spec fn recent_keys(rs: Seq<RecentModel>) -> Seq<Seq<char>> {
    rs.map_values(|r: RecentModel| r.key)
}

/// The first recent entry with the key.
pub open spec fn recent_entry(rs: Seq<RecentModel>, key: Seq<char>) -> Option<RecentModel> {
    match first_index(recent_keys(rs), key) {
        Some(i) => Some(rs[i]),
        None => None,
    }
}

pub(crate) fn recent_position(rs: &Vec<RecentEntity>, key: &str) -> (r: Option<usize>)
    ensures
        match r {
            Some(i) => first_index(recent_keys(recent_views(rs@)), key@) == Some(i as int) && i < rs.len(),
            None => first_index(recent_keys(recent_views(rs@)), key@) is None,
        },
{
    let ghost keys = recent_keys(recent_views(rs@));
    let mut i: usize = 0;
    while i < rs.len()
        invariant
            i <= rs.len(),
            keys == recent_keys(recent_views(rs@)),
            forall|j: int| 0 <= j < i ==> keys[j] != key@,
        decreases rs.len() - i,
    {
        if str_eq(rs[i].key.as_str(), key) {
            proof {
                lemma_first_index(keys, key@, i as int);
            }
            return Some(i);
        }
        i = i + 1;
    }
    proof {
        lemma_first_index(keys, key@, i as int);
    }
    None
}

/// The assignment of ordinals to entities that share a name.
pub struct OrdinalState {
    /// The next ordinal to assign.
    pub next_ordinal: usize,
    /// The ordinal assigned to each entity key.
    pub members: Vec<(String, usize)>,
}

/// The plain-value model of an ordinal history.
pub open spec fn history_view(h: Seq<(String, usize)>) -> Seq<(Seq<char>, usize)> {
    h.map_values(|e: (String, usize)| (e.0@, e.1))
}

/// The ordinal most recently assigned to the key in a history (oldest first), if any.
pub open spec fn latest_ordinal(h: Seq<(Seq<char>, usize)>, key: Seq<char>) -> Option<usize>
    decreases h.len(),
{
    if h.len() == 0 {
        None
    } else if h.last().0 == key {
        Some(h.last().1)
    } else {
        latest_ordinal(h.drop_last(), key)
    }
}

/// Finds the ordinal most recently assigned to the key (see `latest_ordinal`).
pub(crate) fn latest_ordinal_exec(h: &Vec<(String, usize)>, key: &str) -> (r: Option<usize>)
    ensures
        r == latest_ordinal(history_view(h@), key@),
{
    let ghost hv = history_view(h@);
    let mut i: usize = h.len();
    assert(hv.take(i as int) =~= hv);
    while i > 0
        invariant
            i <= h.len(),
            hv == history_view(h@),
            latest_ordinal(hv, key@) == latest_ordinal(hv.take(i as int), key@),
        decreases i,
    {
        assert(hv.take(i as int).drop_last() =~= hv.take(i - 1));
        assert(hv.take(i as int).last() == (h@[i - 1].0@, h@[i - 1].1));
        if str_eq(h[i - 1].0.as_str(), key) {
            return Some(h[i - 1].1);
        }
        i = i - 1;
    }
    None
}

/// Copies an ordinal history.
pub fn clone_history(h: &Vec<(String, usize)>) -> (r: Vec<(String, usize)>)
    ensures
        history_view(r@) == history_view(h@),
{
    let mut r: Vec<(String, usize)> = Vec::new();
    let mut i: usize = 0;
    while i < h.len()
        invariant
            i <= h.len(),
            history_view(r@) == history_view(h@).take(i as int),
        decreases h.len() - i,
    {
        let ghost before = history_view(r@);
        let k = h[i].0.clone();
        assert(k@ == h@[i as int].0@);
        r.push((k, h[i].1));
        assert(history_view(r@) =~= before.push((h@[i as int].0@, h@[i as int].1)));
        assert(history_view(r@) =~= history_view(h@).take(i + 1));
        i = i + 1;
    }
    assert(history_view(h@).take(i as int) =~= history_view(h@));
    r
}


fn clone_ordinal_members(v: &Vec<(String, usize)>) -> (r: Vec<(String, usize)>)
    ensures
        r@.len() == v@.len(),
        forall|i: int| 0 <= i < v@.len() ==> (#[trigger] r@[i]).0@ == v@[i].0@ && r@[i].1 == v@[i].1,
{
    let mut r: Vec<(String, usize)> = Vec::new();
    let mut i: usize = 0;
    while i < v.len()
        invariant
            i <= v.len(),
            r@.len() == i,
            forall|j: int| 0 <= j < i ==> (#[trigger] r@[j]).0@ == v@[j].0@ && r@[j].1 == v@[j].1,
        decreases v.len() - i,
    {
        r.push((v[i].0.clone(), v[i].1));
        i = i + 1;
    }
    r
}

/// A snapshot of the engine's anaphora memory, used to carry narrative continuity across
/// rendering contexts.
pub struct AnaphoraState {
    /// The key of the last mentioned entity.
    pub last_mentioned: Option<String>,
    /// The key of the active subject in the current clause.
    pub active_subject: Option<String>,
    /// Recently introduced entities, oldest first.
    pub recent_entities: Vec<RecentEntity>,
    /// Ordinal assignments for shared display names.
    pub ordinals: Vec<(String, OrdinalState)>,
    /// The ordinals assigned, oldest first: the key and the ordinal it was given.
    pub ordinal_history: Vec<(String, usize)>,
}

impl AnaphoraState {
    /// An empty memory.
    pub fn new() -> (r: Self)
        ensures
            r.last_mentioned is None,
            r.active_subject is None,
            r.recent_entities@.len() == 0,
            r.ordinals@.len() == 0,
            r.ordinal_history@.len() == 0,
    {
        AnaphoraState {
            last_mentioned: None,
            active_subject: None,
            recent_entities: Vec::new(),
            ordinals: Vec::new(),
            ordinal_history: Vec::new(),
        }
    }

    /// The most recent non-pronoun name used for the entity, if any.
    pub fn latest_name(&self, key: &str) -> (r: Option<String>)
        ensures
            opt_view(r) == (match recent_entry(recent_views(self.recent_entities@), key@) {
                Some(m) => m.resolved_name,
                None => None,
            }),
    {
        latest_name_in(&self.recent_entities, key)
    }

    /// The ordinal most recently assigned to the entity, if some ordinal record holds it
    /// (see `current_ordinal_of`).
    pub fn current_ordinal(&self, key: &str) -> (r: Option<usize>)
        ensures
            r == current_ordinal_of(ordinals_model(self.ordinals@), history_view(self.ordinal_history@), key@),
    {
        current_ordinal_exec(&self.ordinals, &self.ordinal_history, key)
    }

    /// The inline adjectives injected for the entity, if it is in the memory.
    pub fn inline_adjectives(&self, key: &str) -> (r: Option<Vec<String>>)
        ensures
            match r {
                Some(a) => recent_entry(recent_views(self.recent_entities@), key@) matches Some(m)
                    && m.adjectives == string_views(a@),
                None => recent_entry(recent_views(self.recent_entities@), key@) is None,
            },
    {
        inline_adjectives_in(&self.recent_entities, key)
    }

    /// Whether the entity is tracked in the memory.
    pub fn has_seen_entity(&self, key: &str) -> (r: bool)
        ensures
            r == (recent_entry(recent_views(self.recent_entities@), key@) is Some),
    {
        recent_position(&self.recent_entities, key).is_some()
    }

    /// Whether the entity is pinned in the memory.
    pub fn is_entity_pinned(&self, key: &str) -> (r: bool)
        ensures
            r == (recent_entry(recent_views(self.recent_entities@), key@) matches Some(m)
                && m.flags.is_pinned),
    {
        is_pinned_in(&self.recent_entities, key)
    }
}

pub(crate) fn latest_name_in(rs: &Vec<RecentEntity>, key: &str) -> (r: Option<String>)
    ensures
        opt_view(r) == (match recent_entry(recent_views(rs@), key@) {
            Some(m) => m.resolved_name,
            None => None,
        }),
{
    match recent_position(rs, key) {
        Some(i) => clone_opt_string(&rs[i].resolved_name),
        None => None,
    }
}

pub(crate) fn inline_adjectives_in(rs: &Vec<RecentEntity>, key: &str) -> (r: Option<Vec<String>>)
    ensures
        match r {
            Some(a) => recent_entry(recent_views(rs@), key@) matches Some(m) && m.adjectives
                == string_views(a@),
            None => recent_entry(recent_views(rs@), key@) is None,
        },
{
    match recent_position(rs, key) {
        Some(i) => Some(clone_strings(&rs[i].adjectives)),
        None => None,
    }
}

pub(crate) fn is_pinned_in(rs: &Vec<RecentEntity>, key: &str) -> (r: bool)
    ensures
        r == (recent_entry(recent_views(rs@), key@) matches Some(m) && m.flags.is_pinned),
{
    match recent_position(rs, key) {
        Some(i) => rs[i].flags.is_pinned,
        None => false,
    }
}

/// The plain-value model of one ordinal record: its name key, next ordinal and members.
pub open spec fn ordinal_model(e: (String, OrdinalState)) -> (Seq<char>, usize, Seq<(Seq<char>, usize)>) {
    (e.0@, e.1.next_ordinal, e.1.members@.map_values(|m: (String, usize)| (m.0@, m.1)))
}

/// The models of a list of ordinal records.
pub open spec fn ordinals_model(v: Seq<(String, OrdinalState)>) -> Seq<(Seq<char>, usize, Seq<(Seq<char>, usize)>)> {
    v.map_values(|e: (String, OrdinalState)| ordinal_model(e))
}

/// The ordinal that the first member under `key` holds in one record's members.
pub open spec fn member_ordinal(ms: Seq<(Seq<char>, usize)>, key: Seq<char>) -> Option<usize>
    decreases ms.len(),
{
    if ms.len() == 0 {
        None
    } else if ms[0].0 == key {
        Some(ms[0].1)
    } else {
        member_ordinal(ms.drop_first(), key)
    }
}

/// The ordinal that the key holds in the first record that has it as a member.
pub open spec fn record_ordinal(m: Seq<(Seq<char>, usize, Seq<(Seq<char>, usize)>)>, key: Seq<char>) -> Option<usize>
    decreases m.len(),
{
    if m.len() == 0 {
        None
    } else {
        match member_ordinal(m[0].2, key) {
            Some(o) => Some(o),
            None => record_ordinal(m.drop_first(), key),
        }
    }
}

/// The current ordinal of an entity: none unless some record holds the key; then the
/// ordinal most recently assigned to it, or, where the history holds no assignment for
/// it, the ordinal its record holds.
pub open spec fn current_ordinal_of(
    m: Seq<(Seq<char>, usize, Seq<(Seq<char>, usize)>)>,
    h: Seq<(Seq<char>, usize)>,
    key: Seq<char>,
) -> Option<usize> {
    match record_ordinal(m, key) {
        None => None,
        Some(o) => match latest_ordinal(h, key) {
            Some(l) => Some(l),
            None => Some(o),
        },
    }
}

fn member_ordinal_exec(ms: &Vec<(String, usize)>, key: &str) -> (r: Option<usize>)
    ensures
        r == member_ordinal(ms@.map_values(|m: (String, usize)| (m.0@, m.1)), key@),
{
    let ghost mv = ms@.map_values(|m: (String, usize)| (m.0@, m.1));
    let mut i: usize = 0;
    assert(mv.skip(0) =~= mv);
    while i < ms.len()
        invariant
            i <= ms.len(),
            mv == ms@.map_values(|m: (String, usize)| (m.0@, m.1)),
            member_ordinal(mv, key@) == member_ordinal(mv.skip(i as int), key@),
        decreases ms.len() - i,
    {
        assert(mv.skip(i as int).drop_first() =~= mv.skip(i + 1));
        assert(mv.skip(i as int)[0] == (ms@[i as int].0@, ms@[i as int].1));
        if str_eq(ms[i].0.as_str(), key) {
            return Some(ms[i].1);
        }
        i = i + 1;
    }
    None
}

/// Finds the current ordinal of an entity (see `current_ordinal_of`).
pub(crate) fn current_ordinal_exec(
    ords: &Vec<(String, OrdinalState)>,
    h: &Vec<(String, usize)>,
    key: &str,
) -> (r: Option<usize>)
    ensures
        r == current_ordinal_of(ordinals_model(ords@), history_view(h@), key@),
{
    let ghost m = ordinals_model(ords@);
    let mut i: usize = 0;
    assert(m.skip(0) =~= m);
    while i < ords.len()
        invariant
            i <= ords.len(),
            m == ordinals_model(ords@),
            record_ordinal(m, key@) == record_ordinal(m.skip(i as int), key@),
        decreases ords.len() - i,
    {
        assert(m.skip(i as int).drop_first() =~= m.skip(i + 1));
        assert(m.skip(i as int)[0] == ordinal_model(ords@[i as int]));
        match member_ordinal_exec(&ords[i].1.members, key) {
            Some(o) => {
                return match latest_ordinal_exec(h, key) {
                    Some(l) => Some(l),
                    None => Some(o),
                };
            },
            None => {},
        }
        i = i + 1;
    }
    None
}

/// Copies a list of ordinal records.
pub fn clone_ordinals(v: &Vec<(String, OrdinalState)>) -> (r: Vec<(String, OrdinalState)>)
    ensures
        ordinals_model(r@) == ordinals_model(v@),
{
    let mut r: Vec<(String, OrdinalState)> = Vec::new();
    let mut i: usize = 0;
    while i < v.len()
        invariant
            i <= v.len(),
            ordinals_model(r@) == ordinals_model(v@).take(i as int),
        decreases v.len() - i,
    {
        let members = clone_ordinal_members(&v[i].1.members);
        let e = (v[i].0.clone(), OrdinalState { next_ordinal: v[i].1.next_ordinal, members });
        let ghost before = ordinals_model(r@);
        assert(e.1.members@.map_values(|m: (String, usize)| (m.0@, m.1)) =~= v@[i as int].1.members@.map_values(|m: (String, usize)| (m.0@, m.1)));
        r.push(e);
        assert(ordinals_model(r@) =~= before.push(ordinal_model(v@[i as int])));
        i = i + 1;
        assert(ordinals_model(r@) =~= ordinals_model(v@).take(i as int));
    }
    assert(ordinals_model(v@).take(v.len() as int) =~= ordinals_model(v@));
    r
}

/// Copies a list of recent entities.
pub fn clone_recents(v: &Vec<RecentEntity>) -> (r: Vec<RecentEntity>)
    ensures
        recent_views(r@) == recent_views(v@),
{
    let mut r: Vec<RecentEntity> = Vec::new();
    let mut i: usize = 0;
    while i < v.len()
        invariant
            i <= v.len(),
            recent_views(r@) == recent_views(v@).take(i as int),
        decreases v.len() - i,
    {
        let e = v[i].duplicate();
        let ghost before = recent_views(r@);
        r.push(e);
        assert(recent_views(r@) =~= before.push(v@[i as int]@));
        i = i + 1;
        assert(recent_views(r@) =~= recent_views(v@).take(i as int));
    }
    assert(recent_views(v@).take(v.len() as int) =~= recent_views(v@));
    r
}

/// The context in which a template is rendered for one viewer: its settings, the entities
/// that template keys refer to, and the anaphora memory that the rendering updates.
pub struct RenderContext<'a> {
    /// The id of the entity reading the text.
    pub viewer_id: &'a str,
    /// The narrative stance used for the viewer.
    pub stance: ActorStance,
    /// The tense used to render verbs.
    pub tense: Tense,
    /// Enables the pre-pass that resolves name collisions ahead of time.
    pub lookahead: bool,
    /// The number above which ordinal words are written in digits. Defaults to 999.
    pub ordinal_word_threshold: usize,
    /// If true, target resolution does not transliterate Unicode to ASCII.
    pub strict_diacritics: bool,
    /// The most entities kept in the anaphora memory (0 = unbounded). Defaults to 15.
    pub anaphora_limit: usize,
    /// The most adjectives combined when disambiguating. Defaults to 5, at most 127.
    pub adjective_disambiguation_limit: usize,
    /// If true, the anaphora memory is cleared after each successful render.
    pub auto_clear: bool,
    /// Template keys and the entities they refer to; the first entry for a key wins.
    pub entities: Vec<(String, &'a TemplateEntity)>,
    /// Dynamic variables and their values; the first entry for a key wins.
    pub variables: Vec<(String, Vec<String>)>,
    /// The key of the most recently mentioned entity.
    pub last_mentioned: Option<String>,
    /// The key of the active subject of the current clause.
    pub active_subject: Option<String>,
    /// The entities mentioned since the memory was last cleared, oldest first.
    pub recent_entities: Vec<RecentEntity>,
    /// Ordinal assignments for entities with colliding names.
    pub ordinals: Vec<(String, OrdinalState)>,
    /// The ordinals assigned, oldest first: the key and the ordinal it was given.
    pub ordinal_history: Vec<(String, usize)>,
}

} // verus!
