//! Building a rendering context and managing its anaphora memory.
use vstd::prelude::*;
use crate::models::{
    clone_ordinals, clone_recents, contains_viewer_spec, gender_spec, lookup, opt_view,
    ordinals_model, path_target, plural_spec, recent_entry, recent_keys, recent_position,
    recent_views, ActorStance, AnaphoraState, RecentEntity, RecentEntityFlags, RecentModel,
    RenderContext, Tense, TemplateEntity, NULL_VIEWER,
};
use crate::text::{
    chars_find_from, chars_of, find, find_key, first_index, keys_of, lemma_find_bounds,
    lemma_first_index, lemma_first_index_valid, split_on, str_eq, string_of, subrange_of,
};

verus! {

/// The settings and entity table of a context, which anaphora operations leave alone.
pub open spec fn same_setup(a: RenderContext, b: RenderContext) -> bool {
    &&& a.viewer_id == b.viewer_id
    &&& a.stance == b.stance
    &&& a.tense == b.tense
    &&& a.lookahead == b.lookahead
    &&& a.ordinal_word_threshold == b.ordinal_word_threshold
    &&& a.strict_diacritics == b.strict_diacritics
    &&& a.anaphora_limit == b.anaphora_limit
    &&& a.adjective_disambiguation_limit == b.adjective_disambiguation_limit
    &&& a.auto_clear == b.auto_clear
    &&& a.entities == b.entities
}

/// The anaphora memory of a context is unchanged.
pub open spec fn same_memory(a: RenderContext, b: RenderContext) -> bool {
    &&& a.last_mentioned == b.last_mentioned
    &&& a.active_subject == b.active_subject
    &&& a.recent_entities == b.recent_entities
    &&& a.ordinals == b.ordinals
    &&& a.ordinal_history == b.ordinal_history
}

/// The entity that a key names directly in the entity table.
pub open spec fn direct_entity(ctx: RenderContext, key: Seq<char>) -> Option<TemplateEntity> {
    match lookup(ctx.entities@, key) {
        Some(e) => Some(*e),
        None => None,
    }
}

/// The entity that a key names: directly, or as "root.path" through properties.
pub open spec fn entity_for(ctx: RenderContext, key: Seq<char>) -> Option<TemplateEntity> {
    match direct_entity(ctx, key) {
        Some(e) => Some(e),
        None => match find(key, seq!['.']) {
            Some(i) => match direct_entity(ctx, key.take(i)) {
                Some(root) => path_target(root, split_on(key.skip(i + 1), '.')),
                None => None,
            },
            None => None,
        },
    }
}

/// The cached flags of an entity as the context's viewer sees it.
pub open spec fn flags_for(e: TemplateEntity, viewer: Seq<char>, pinned: bool) -> RecentEntityFlags {
    RecentEntityFlags {
        is_plural: plural_spec(e),
        is_viewer_normal: contains_viewer_spec(e, viewer),
        is_viewer_forced: contains_viewer_spec(e, NULL_VIEWER@),
        is_pinned: pinned,
    }
}

/// The memory after an entity is mentioned: its entry (refreshed, keeping its pin and its
/// adjectives and name) moves to the newest end, or a new entry is added there.
pub open spec fn touched(rs: Seq<RecentModel>, key: Seq<char>, e: TemplateEntity, viewer: Seq<char>, pin: bool) -> Seq<RecentModel> {
    match first_index(recent_keys(rs), key) {
        Some(i) => rs.remove(i).push(
            RecentModel {
                gender: gender_spec(e),
                flags: flags_for(e, viewer, rs[i].flags.is_pinned || pin),
                ..rs[i]
            },
        ),
        None => rs.push(
            RecentModel {
                key,
                gender: gender_spec(e),
                flags: flags_for(e, viewer, pin),
                adjectives: seq![],
                resolved_name: None,
            },
        ),
    }
}

/// The position of the oldest entry that is not pinned.
pub open spec fn first_unpinned(rs: Seq<RecentModel>) -> Option<int>
    decreases rs.len(),
{
    if rs.len() == 0 {
        None
    } else if !rs[0].flags.is_pinned {
        Some(0)
    } else {
        match first_unpinned(rs.drop_first()) {
            Some(i) => Some(i + 1),
            None => None,
        }
    }
}

/// Forgets `key` from an optional key slot when it holds it.
pub open spec fn drop_if(slot: Option<Seq<char>>, key: Seq<char>) -> Option<Seq<char>> {
    if slot == Some(key) { None } else { slot }
}

/// The memory after the limit is enforced: while there are more entries than the limit
/// (a limit of 0 means none), the oldest unpinned entry is evicted, and the
/// last-mentioned and active-subject slots forget it; when every entry is pinned, the
/// memory may exceed the limit.
pub open spec fn evicted(limit: nat, rs: Seq<RecentModel>, last: Option<Seq<char>>, active: Option<Seq<char>>) -> (Seq<RecentModel>, Option<Seq<char>>, Option<Seq<char>>)
    decreases rs.len(),
{
    if limit == 0 || rs.len() <= limit {
        (rs, last, active)
    } else {
        match first_unpinned(rs) {
            Some(p) => if 0 <= p < rs.len() {
                evicted(limit, rs.remove(p), drop_if(last, rs[p].key), drop_if(active, rs[p].key))
            } else {
                (rs, last, active)
            },
            None => (rs, last, active),
        }
    }
}

proof fn lemma_first_unpinned(rs: Seq<RecentModel>)
    ensures
        first_unpinned(rs) matches Some(p) ==> 0 <= p < rs.len() && !rs[p].flags.is_pinned
            && forall|j: int| 0 <= j < p ==> rs[j].flags.is_pinned,
        first_unpinned(rs) is None ==> forall|j: int| 0 <= j < rs.len() ==> rs[j].flags.is_pinned,
    decreases rs.len(),
{
    if rs.len() > 0 {
        lemma_first_unpinned(rs.drop_first());
        if rs[0].flags.is_pinned {
            assert forall|j: int| 1 <= j < rs.len() implies rs[j] == rs.drop_first()[j - 1] by {}
        }
    }
}

/// Eviction keeps every pinned entry and, for a positive limit, leaves the memory within
/// the limit unless every remaining entry is pinned.
pub proof fn lemma_evicted(limit: nat, rs: Seq<RecentModel>, last: Option<Seq<char>>, active: Option<Seq<char>>)
    ensures
        forall|i: int| 0 <= i < rs.len() && rs[i].flags.is_pinned ==> evicted(limit, rs, last, active).0.contains(#[trigger] rs[i]),
        limit > 0 ==> evicted(limit, rs, last, active).0.len() <= limit || forall|j: int| 0 <= j < evicted(limit, rs, last, active).0.len() ==> (#[trigger] evicted(limit, rs, last, active).0[j]).flags.is_pinned,
        evicted(limit, rs, last, active).0.len() <= rs.len(),
    decreases rs.len(),
{
    lemma_first_unpinned(rs);
    if limit == 0 || rs.len() <= limit {
        assert forall|i: int| 0 <= i < rs.len() && rs[i].flags.is_pinned implies rs.contains(#[trigger] rs[i]) by {}
    } else {
        match first_unpinned(rs) {
            Some(p) => {
                let r2 = rs.remove(p);
                lemma_evicted(limit, r2, drop_if(last, rs[p].key), drop_if(active, rs[p].key));
                assert forall|i: int| 0 <= i < rs.len() && rs[i].flags.is_pinned implies evicted(limit, rs, last, active).0.contains(#[trigger] rs[i]) by {
                    if i < p {
                        assert(r2[i] == rs[i]);
                    } else {
                        assert(i != p);
                        assert(r2[i - 1] == rs[i]);
                    }
                }
            },
            None => {
                assert forall|i: int| 0 <= i < rs.len() && rs[i].flags.is_pinned implies rs.contains(#[trigger] rs[i]) by {}
            },
        }
    }
}

fn first_unpinned_exec(rs: &Vec<RecentEntity>) -> (r: Option<usize>)
    ensures
        match r {
            Some(p) => first_unpinned(recent_views(rs@)) == Some(p as int),
            None => first_unpinned(recent_views(rs@)) is None,
        },
{
    let ghost v = recent_views(rs@);
    let mut i: usize = 0;
    while i < rs.len()
        invariant
            i <= rs.len(),
            v == recent_views(rs@),
            forall|j: int| 0 <= j < i ==> v[j].flags.is_pinned,
        decreases rs.len() - i,
    {
        if !rs[i].flags.is_pinned {
            proof {
                lemma_first_unpinned_at(v, i as int);
            }
            return Some(i);
        }
        i = i + 1;
    }
    proof {
        lemma_first_unpinned_at(v, i as int);
    }
    None
}

proof fn lemma_first_unpinned_at(rs: Seq<RecentModel>, i: int)
    requires
        0 <= i <= rs.len(),
        forall|j: int| 0 <= j < i ==> rs[j].flags.is_pinned,
    ensures
        i < rs.len() && !rs[i].flags.is_pinned ==> first_unpinned(rs) == Some(i),
        i == rs.len() ==> first_unpinned(rs) is None,
    decreases rs.len(),
{
    if rs.len() > 0 && i > 0 {
        assert forall|j: int| 0 <= j < i - 1 implies rs.drop_first()[j].flags.is_pinned by {
            assert(rs.drop_first()[j] == rs[j + 1]);
        }
        lemma_first_unpinned_at(rs.drop_first(), i - 1);
    }
}

fn opt_is(slot: &Option<String>, key: &str) -> (r: bool)
    ensures
        r == (opt_view(*slot) == Some(key@)),
{
    match slot {
        Some(s) => str_eq(s.as_str(), key),
        None => false,
    }
}

/// Evicts the oldest unpinned entries until the memory is within `limit` (0 = unbounded),
/// clearing the last-mentioned and active-subject slots that held an evicted key.
pub fn enforce_anaphora_limit(
    limit: usize,
    recents: &mut Vec<RecentEntity>,
    last_mentioned: &mut Option<String>,
    active_subject: &mut Option<String>,
)
    ensures
        (recent_views(final(recents)@), opt_view(*final(last_mentioned)), opt_view(*final(active_subject)))
            == evicted(limit as nat, recent_views(old(recents)@), opt_view(*old(last_mentioned)), opt_view(*old(active_subject))),
{
    if limit == 0 {
        return;
    }
    loop
        invariant
            limit > 0,
            evicted(limit as nat, recent_views(recents@), opt_view(*last_mentioned), opt_view(*active_subject))
                == evicted(limit as nat, recent_views(old(recents)@), opt_view(*old(last_mentioned)), opt_view(*old(active_subject))),
        decreases recents.len(),
    {
        if recents.len() <= limit {
            return;
        }
        let ghost v = recent_views(recents@);
        match first_unpinned_exec(recents) {
            Some(pos) => {
                proof {
                    lemma_first_unpinned(v);
                }
                let removed = recents.remove(pos);
                assert(recent_views(recents@) =~= v.remove(pos as int));
                if opt_is(last_mentioned, removed.key.as_str()) {
                    *last_mentioned = None;
                }
                if opt_is(active_subject, removed.key.as_str()) {
                    *active_subject = None;
                }
            },
            None => {
                return;
            },
        }
    }
}

pub(crate) fn refresh_flags(e: &TemplateEntity, viewer: &str, pinned: bool) -> (r: RecentEntityFlags)
    ensures
        r == flags_for(*e, viewer@, pinned),
{
    RecentEntityFlags {
        is_plural: e.is_plural(),
        is_viewer_normal: e.contains_viewer(viewer),
        is_viewer_forced: e.contains_viewer(NULL_VIEWER),
        is_pinned: pinned,
    }
}

/// Records a mention of `key` (an entry for `e`) in the memory.
fn touch(recents: &mut Vec<RecentEntity>, key: &str, e: &TemplateEntity, viewer: &str, pin: bool)
    ensures
        recent_views(final(recents)@) == touched(recent_views(old(recents)@), key@, *e, viewer@, pin),
{
    let ghost v = recent_views(recents@);
    match recent_position(recents, key) {
        Some(pos) => {
            let mut item = recents.remove(pos);
            assert(recent_views(recents@) =~= v.remove(pos as int));
            let pinned = item.flags.is_pinned || pin;
            item.gender = e.gender();
            item.flags = refresh_flags(e, viewer, pinned);
            recents.push(item);
            assert(recent_views(recents@) =~= touched(v, key@, *e, viewer@, pin));
        },
        None => {
            let flags = refresh_flags(e, viewer, pin);
            let item = RecentEntity {
                key: String::from_str(key),
                gender: e.gender(),
                flags,
                adjectives: Vec::new(),
                resolved_name: None,
            };
            recents.push(item);
            assert(item@.adjectives =~= Seq::<Seq<char>>::empty());
            assert(recent_views(recents@) =~= touched(v, key@, *e, viewer@, pin));
        },
    }
}

impl<'a> RenderContext<'a> {
    /// A new, empty rendering context for the viewer, with the default settings: second
    /// person, present tense, no lookahead, ordinal words up to 999, transliterating
    /// target resolution, a memory of 15 entities, 5 disambiguation adjectives, no auto-clear.
    pub fn new(viewer_id: &'a str) -> (r: Self)
        ensures
            r.viewer_id == viewer_id,
            r.stance == ActorStance::SecondPerson,
            r.tense == Tense::Present,
            !r.lookahead,
            r.ordinal_word_threshold == 999,
            !r.strict_diacritics,
            r.anaphora_limit == 15,
            r.adjective_disambiguation_limit == 5,
            !r.auto_clear,
            r.entities@.len() == 0,
            r.last_mentioned is None,
            r.active_subject is None,
            r.recent_entities@.len() == 0,
            r.ordinals@.len() == 0,
            r.ordinal_history@.len() == 0,
            r.variables@.len() == 0,
    {
        RenderContext {
            viewer_id,
            stance: ActorStance::SecondPerson,
            tense: Tense::Present,
            lookahead: false,
            ordinal_word_threshold: 999,
            strict_diacritics: false,
            anaphora_limit: 15,
            adjective_disambiguation_limit: 5,
            auto_clear: false,
            entities: Vec::new(),
            variables: Vec::new(),
            last_mentioned: None,
            active_subject: None,
            recent_entities: Vec::new(),
            ordinals: Vec::new(),
            ordinal_history: Vec::new(),
        }
    }

    /// Sets the viewer; useful when rendering one event for several observers.
    pub fn with_viewer(self, viewer_id: &'a str) -> (r: Self)
        ensures
            r == (RenderContext { viewer_id, ..self }),
    {
        RenderContext { viewer_id, ..self }
    }

    /// Sets the actor stance.
    pub fn with_stance(self, stance: ActorStance) -> (r: Self)
        ensures
            r == (RenderContext { stance, ..self }),
    {
        RenderContext { stance, ..self }
    }

    /// Sets the tense.
    pub fn with_tense(self, tense: Tense) -> (r: Self)
        ensures
            r == (RenderContext { tense, ..self }),
    {
        RenderContext { tense, ..self }
    }

    /// Sets a dynamic variable to a list of values; an earlier value of the key is kept.
    pub fn with_variable(self, key: &str, values: Vec<String>) -> (r: Self)
        ensures
            r.variables@.len() == self.variables@.len() + 1,
            r.variables@.drop_last() == self.variables@,
            r.variables@.last().0@ == key@,
            r.variables@.last().1 == values,
            r == (RenderContext { variables: r.variables, ..self }),
    {
        let mut vars = self.variables;
        vars.push((String::from_str(key), values));
        RenderContext { variables: vars, ..self }
    }

    /// Clears the memo of resolved targets. Targets are resolved afresh on every call, from
    /// the context as it stands, so there is nothing to clear and the context is unchanged.
    pub fn clear_target_cache(&self) {
    }

    /// Enables or disables the lookahead pre-pass.
    pub fn with_lookahead(self, lookahead: bool) -> (r: Self)
        ensures
            r == (RenderContext { lookahead, ..self }),
    {
        RenderContext { lookahead, ..self }
    }

    /// Sets the number above which ordinals are written in digits (0: always digits).
    pub fn with_ordinal_word_threshold(self, threshold: usize) -> (r: Self)
        ensures
            r == (RenderContext { ordinal_word_threshold: threshold, ..self }),
    {
        RenderContext { ordinal_word_threshold: threshold, ..self }
    }

    /// Enables or disables strict diacritic matching in target resolution.
    pub fn with_strict_diacritics(self, strict: bool) -> (r: Self)
        ensures
            r == (RenderContext { strict_diacritics: strict, ..self }),
    {
        RenderContext { strict_diacritics: strict, ..self }
    }

    /// Sets how many recent entities the anaphora memory keeps (0 = unbounded).
    pub fn with_anaphora_limit(self, limit: usize) -> (r: Self)
        ensures
            r == (RenderContext { anaphora_limit: limit, ..self }),
    {
        RenderContext { anaphora_limit: limit, ..self }
    }

    /// Sets how many adjectives disambiguation combines; values above 127 are clamped to 127.
    pub fn with_adjective_disambiguation_limit(self, limit: usize) -> (r: Self)
        ensures
            r == (RenderContext { adjective_disambiguation_limit: if limit > 127 { 127 } else { limit }, ..self }),
    {
        let l = if limit > 127 { 127 } else { limit };
        RenderContext { adjective_disambiguation_limit: l, ..self }
    }

    /// Enables or disables clearing the anaphora memory after each render.
    pub fn with_auto_clear(self, auto_clear: bool) -> (r: Self)
        ensures
            r == (RenderContext { auto_clear, ..self }),
    {
        RenderContext { auto_clear, ..self }
    }

    /// Maps a template key to an entity, replacing an earlier mapping of the same key.
    pub fn with_entity(self, key: &str, entity: &'a TemplateEntity) -> (r: Self)
        ensures
            same_memory(r, self),
            r.variables == self.variables,
            r.viewer_id == self.viewer_id,
            r.stance == self.stance,
            r.tense == self.tense,
            r.lookahead == self.lookahead,
            r.ordinal_word_threshold == self.ordinal_word_threshold,
            r.strict_diacritics == self.strict_diacritics,
            r.anaphora_limit == self.anaphora_limit,
            r.adjective_disambiguation_limit == self.adjective_disambiguation_limit,
            r.auto_clear == self.auto_clear,
            lookup(r.entities@, key@) == Some(entity),
            forall|k: Seq<char>| k != key@ ==> lookup(r.entities@, k) == lookup(self.entities@, k),
    {
        let mut ctx = self;
        let ghost old_entities = ctx.entities@;
        match find_key(&ctx.entities, key) {
            Some(i) => {
                ctx.entities.set(i, (String::from_str(key), entity));
                proof {
                    let ne = ctx.entities@;
                    lemma_first_index_valid(keys_of(old_entities), key@);
                    assert(keys_of(ne) =~= keys_of(old_entities));
                    assert(ne[i as int].1 == entity);
                    assert forall|k: Seq<char>| k != key@ implies lookup(ne, k) == lookup(old_entities, k) by {
                        lemma_first_index_valid(keys_of(old_entities), k);
                        match first_index(keys_of(old_entities), k) {
                            Some(j) => {
                                assert(keys_of(old_entities)[j] == k);
                                assert(j != i as int);
                                assert(ne[j] == old_entities[j]);
                            },
                            None => {},
                        }
                    }
                }
            },
            None => {
                ctx.entities.push((String::from_str(key), entity));
                proof {
                    let ne = ctx.entities@;
                    assert(keys_of(ne) =~= keys_of(old_entities).push(key@));
                    lemma_first_index_valid(keys_of(old_entities), key@);
                    lemma_first_index(keys_of(ne), key@, old_entities.len() as int);
                    assert forall|k: Seq<char>| k != key@ implies lookup(ne, k) == lookup(old_entities, k) by {
                        lemma_first_index_push(keys_of(old_entities), key@, k);
                        lemma_first_index_valid(keys_of(old_entities), k);
                        match first_index(keys_of(old_entities), k) {
                            Some(j) => { assert(ne[j] == old_entities[j]); },
                            None => {},
                        }
                    }
                }
            },
        }
        ctx
    }

    /// Retrieves an entity by its template key, following "root.path" through properties
    /// when the key itself is not mapped.
    pub fn get_entity(&self, key: &str) -> (r: Option<&'a TemplateEntity>)
        ensures
            match r {
                Some(e) => entity_for(*self, key@) == Some(*e),
                None => entity_for(*self, key@) is None,
            },
    {
        match find_key(&self.entities, key) {
            Some(i) => {
                return Some(self.entities[i].1);
            },
            None => {},
        }
        let kv = chars_of(key);
        let dot = vec!['.'];
        assert(dot@ =~= seq!['.']);
        match chars_find_from(&kv, &dot, 0) {
            Some(i) => {
                proof {
                    lemma_find_bounds(kv@, dot@, 0);
                }
                let root = string_of(&subrange_of(&kv, 0, i));
                let rest = string_of(&subrange_of(&kv, i + 1, kv.len()));
                assert(kv@.take(i as int) =~= root@);
                assert(kv@.skip(i + 1) =~= rest@);
                match find_key(&self.entities, root.as_str()) {
                    Some(j) => crate::models::resolve_entity_path(self.entities[j].1, rest.as_str()),
                    None => None,
                }
            },
            None => None,
        }
    }

    /// Makes `key` the most recently mentioned entity; when the key is mapped directly, the
    /// entity is (re)entered as the newest entry of the memory and the limit is enforced.
    pub fn with_last_mentioned(self, key: &str) -> (r: Self)
        ensures
            same_setup(r, self),
            r.ordinals == self.ordinals,
            r.ordinal_history == self.ordinal_history,
            match direct_entity(self, key@) {
                Some(e) => (recent_views(r.recent_entities@), opt_view(r.last_mentioned), opt_view(r.active_subject))
                    == evicted(
                        self.anaphora_limit as nat,
                        touched(recent_views(self.recent_entities@), key@, e, self.viewer_id@, false),
                        Some(key@),
                        opt_view(self.active_subject),
                    ),
                None => opt_view(r.last_mentioned) == Some(key@) && r.recent_entities == self.recent_entities
                    && r.active_subject == self.active_subject,
            },
    {
        let mut ctx = self;
        ctx.last_mentioned = Some(String::from_str(key));
        match find_key(&ctx.entities, key) {
            Some(i) => {
                let e = ctx.entities[i].1;
                touch(&mut ctx.recent_entities, key, e, ctx.viewer_id, false);
                enforce_anaphora_limit(
                    ctx.anaphora_limit,
                    &mut ctx.recent_entities,
                    &mut ctx.last_mentioned,
                    &mut ctx.active_subject,
                );
            },
            None => {},
        }
        ctx
    }

    /// Pins an entity in the memory so that it is never evicted automatically; when the key
    /// is mapped directly, its entry becomes the newest and the limit is enforced.
    pub fn pin_anaphora(&mut self, key: &str)
        ensures
            same_setup(*final(self), *old(self)),
            final(self).ordinals == old(self).ordinals,
            final(self).ordinal_history == old(self).ordinal_history,
            match direct_entity(*old(self), key@) {
                Some(e) => (recent_views(final(self).recent_entities@), opt_view(final(self).last_mentioned), opt_view(final(self).active_subject))
                    == evicted(
                        old(self).anaphora_limit as nat,
                        touched(recent_views(old(self).recent_entities@), key@, e, old(self).viewer_id@, true),
                        opt_view(old(self).last_mentioned),
                        opt_view(old(self).active_subject),
                    ),
                None => same_memory(*final(self), *old(self)),
            },
    {
        match find_key(&self.entities, key) {
            Some(i) => {
                let e = self.entities[i].1;
                let viewer = self.viewer_id;
                touch(&mut self.recent_entities, key, e, viewer, true);
                let limit = self.anaphora_limit;
                enforce_anaphora_limit(
                    limit,
                    &mut self.recent_entities,
                    &mut self.last_mentioned,
                    &mut self.active_subject,
                );
            },
            None => {},
        }
    }

    /// Pins an entity in the memory (builder form of `pin_anaphora`).
    pub fn with_pinned_entity(self, key: &str) -> (r: Self)
        ensures
            same_setup(r, self),
            r.ordinals == self.ordinals,
            r.ordinal_history == self.ordinal_history,
            match direct_entity(self, key@) {
                Some(e) => (recent_views(r.recent_entities@), opt_view(r.last_mentioned), opt_view(r.active_subject))
                    == evicted(
                        self.anaphora_limit as nat,
                        touched(recent_views(self.recent_entities@), key@, e, self.viewer_id@, true),
                        opt_view(self.last_mentioned),
                        opt_view(self.active_subject),
                    ),
                None => same_memory(r, self),
            },
    {
        let mut ctx = self;
        ctx.pin_anaphora(key);
        ctx
    }

    /// Unpins an entity so that it can be evicted again.
    pub fn unpin_anaphora(&mut self, key: &str)
        ensures
            same_setup(*final(self), *old(self)),
            final(self).last_mentioned == old(self).last_mentioned,
            final(self).active_subject == old(self).active_subject,
            final(self).ordinals == old(self).ordinals,
            final(self).ordinal_history == old(self).ordinal_history,
            recent_views(final(self).recent_entities@) == (match first_index(recent_keys(recent_views(old(self).recent_entities@)), key@) {
                Some(i) => recent_views(old(self).recent_entities@).update(
                    i,
                    RecentModel {
                        flags: RecentEntityFlags {
                            is_pinned: false,
                            ..recent_views(old(self).recent_entities@)[i].flags
                        },
                        ..recent_views(old(self).recent_entities@)[i]
                    },
                ),
                None => recent_views(old(self).recent_entities@),
            }),
    {
        let ghost v = recent_views(self.recent_entities@);
        match recent_position(&self.recent_entities, key) {
            Some(i) => {
                let mut item = self.recent_entities.remove(i);
                item.flags.is_pinned = false;
                self.recent_entities.insert(i, item);
                assert(recent_views(self.recent_entities@) =~= v.update(
                    i as int,
                    RecentModel { flags: RecentEntityFlags { is_pinned: false, ..v[i as int].flags }, ..v[i as int] },
                ));
            },
            None => {},
        }
    }

    /// Removes an entity from the memory and from the last-mentioned and active-subject slots.
    pub fn forget_anaphora(&mut self, key: &str)
        ensures
            same_setup(*final(self), *old(self)),
            final(self).ordinals == old(self).ordinals,
            final(self).ordinal_history == old(self).ordinal_history,
            opt_view(final(self).last_mentioned) == drop_if(opt_view(old(self).last_mentioned), key@),
            opt_view(final(self).active_subject) == drop_if(opt_view(old(self).active_subject), key@),
            recent_views(final(self).recent_entities@) == recent_views(old(self).recent_entities@).filter(
                |m: RecentModel| m.key != key@,
            ),
    {
        if opt_is(&self.last_mentioned, key) {
            self.last_mentioned = None;
        }
        if opt_is(&self.active_subject, key) {
            self.active_subject = None;
        }
        let ghost v = recent_views(self.recent_entities@);
        let mut kept: Vec<RecentEntity> = Vec::new();
        let mut old_list: Vec<RecentEntity> = Vec::new();
        std::mem::swap(&mut old_list, &mut self.recent_entities);
        let mut i: usize = 0;
        proof {
            reveal_with_fuel(Seq::<_>::filter, 1);
            assert(v.take(0) =~= Seq::<RecentModel>::empty());
            assert(recent_views(kept@) =~= Seq::<RecentModel>::empty());
        }
        while i < old_list.len()
            invariant
                i <= old_list.len(),
                v == recent_views(old_list@),
                recent_views(kept@) == v.take(i as int).filter(|m: RecentModel| m.key != key@),
            decreases old_list.len() - i,
        {
            let ghost before = recent_views(kept@);
            proof {
                reveal_with_fuel(Seq::<_>::filter, 1);
            }
            assert(v.take((i + 1) as int).drop_last() =~= v.take(i as int));
            assert(v.take((i + 1) as int).last() == v[i as int]);
            if !str_eq(old_list[i].key.as_str(), key) {
                kept.push(old_list[i].duplicate());
                assert(recent_views(kept@) =~= before.push(v[i as int]));
            }
            i = i + 1;
        }
        assert(v.take(old_list.len() as int) =~= v);
        self.recent_entities = kept;
    }

    /// Removes an entity from the memory (builder form of `forget_anaphora`).
    pub fn without_anaphora(self, key: &str) -> (r: Self)
        ensures
            same_setup(r, self),
            r.ordinals == self.ordinals,
            r.ordinal_history == self.ordinal_history,
            opt_view(r.last_mentioned) == drop_if(opt_view(self.last_mentioned), key@),
            opt_view(r.active_subject) == drop_if(opt_view(self.active_subject), key@),
            recent_views(r.recent_entities@) == recent_views(self.recent_entities@).filter(
                |m: RecentModel| m.key != key@,
            ),
    {
        let mut ctx = self;
        ctx.forget_anaphora(key);
        ctx
    }

    /// Clears the anaphora memory, so that every entity is treated as newly introduced.
    pub fn clear_anaphora(&mut self)
        ensures
            same_setup(*final(self), *old(self)),
            final(self).last_mentioned is None,
            final(self).active_subject is None,
            final(self).recent_entities@.len() == 0,
            final(self).ordinals@.len() == 0,
            final(self).ordinal_history@.len() == 0,
    {
        self.last_mentioned = None;
        self.active_subject = None;
        self.recent_entities = Vec::new();
        self.ordinals = Vec::new();
        self.ordinal_history = Vec::new();
    }

    /// A snapshot of the anaphora memory.
    pub fn extract_anaphora(&self) -> (r: AnaphoraState)
        ensures
            opt_view(r.last_mentioned) == opt_view(self.last_mentioned),
            opt_view(r.active_subject) == opt_view(self.active_subject),
            recent_views(r.recent_entities@) == recent_views(self.recent_entities@),
            ordinals_model(r.ordinals@) == ordinals_model(self.ordinals@),
            crate::models::history_view(r.ordinal_history@) == crate::models::history_view(self.ordinal_history@),
    {
        AnaphoraState {
            last_mentioned: crate::models::clone_opt_string(&self.last_mentioned),
            active_subject: crate::models::clone_opt_string(&self.active_subject),
            recent_entities: clone_recents(&self.recent_entities),
            ordinals: clone_ordinals(&self.ordinals),
            ordinal_history: crate::models::clone_history(&self.ordinal_history),
        }
    }

    /// Replaces the anaphora memory with a snapshot.
    pub fn with_anaphora(self, state: AnaphoraState) -> (r: Self)
        ensures
            same_setup(r, self),
            r.last_mentioned == state.last_mentioned,
            r.active_subject == state.active_subject,
            r.recent_entities == state.recent_entities,
            r.ordinals == state.ordinals,
            r.ordinal_history == state.ordinal_history,
    {
        RenderContext {
            last_mentioned: state.last_mentioned,
            active_subject: state.active_subject,
            recent_entities: state.recent_entities,
            ordinals: state.ordinals,
            ordinal_history: state.ordinal_history,
            ..self
        }
    }

    /// The key of the most recently mentioned entity.
    pub fn last_mentioned(&self) -> (r: Option<String>)
        ensures
            opt_view(r) == opt_view(self.last_mentioned),
    {
        crate::models::clone_opt_string(&self.last_mentioned)
    }

    /// The key of the active subject of the current clause.
    pub fn active_subject(&self) -> (r: Option<String>)
        ensures
            opt_view(r) == opt_view(self.active_subject),
    {
        crate::models::clone_opt_string(&self.active_subject)
    }

    /// The most recent non-pronoun name used for the entity.
    pub fn latest_name(&self, key: &str) -> (r: Option<String>)
        ensures
            opt_view(r) == (match recent_entry(recent_views(self.recent_entities@), key@) {
                Some(m) => m.resolved_name,
                None => None,
            }),
    {
        crate::models::latest_name_in(&self.recent_entities, key)
    }

    /// The ordinal most recently assigned to the entity, if some ordinal record holds it
    /// (see `current_ordinal_of`).
    pub fn current_ordinal(&self, key: &str) -> (r: Option<usize>)
        ensures
            r == crate::models::current_ordinal_of(ordinals_model(self.ordinals@), crate::models::history_view(self.ordinal_history@), key@),
    {
        crate::models::current_ordinal_exec(&self.ordinals, &self.ordinal_history, key)
    }

    /// The inline adjectives injected for the entity, if it is in the memory.
    pub fn inline_adjectives(&self, key: &str) -> (r: Option<Vec<String>>)
        ensures
            match r {
                Some(a) => recent_entry(recent_views(self.recent_entities@), key@) matches Some(m)
                    && m.adjectives == crate::grammar::string_views(a@),
                None => recent_entry(recent_views(self.recent_entities@), key@) is None,
            },
    {
        crate::models::inline_adjectives_in(&self.recent_entities, key)
    }

    /// Whether the entity is tracked in the memory.
    pub fn has_seen_entity(&self, key: &str) -> (r: bool)
        ensures
            r == (recent_entry(recent_views(self.recent_entities@), key@) is Some),
    {
        recent_position(&self.recent_entities, key).is_some()
    }

    /// Whether the entity is pinned in the memory.
    pub fn is_entity_pinned(&self, key: &str) -> (r: bool)
        ensures
            r == (recent_entry(recent_views(self.recent_entities@), key@) matches Some(m)
                && m.flags.is_pinned),
    {
        crate::models::is_pinned_in(&self.recent_entities, key)
    }
}

/// Appending a key leaves the first position of every other key unchanged.
pub proof fn lemma_first_index_push(keys: Seq<Seq<char>>, new_key: Seq<char>, k: Seq<char>)
    requires
        k != new_key,
    ensures
        first_index(keys.push(new_key), k) == first_index(keys, k),
    decreases keys.len(),
{
    if keys.len() > 0 {
        assert(keys.push(new_key).drop_first() =~= keys.drop_first().push(new_key));
        assert(keys.push(new_key)[0] == keys[0]);
        lemma_first_index_push(keys.drop_first(), new_key, k);
    } else {
        assert(keys.push(new_key).drop_first() =~= Seq::<Seq<char>>::empty());
        assert(keys.push(new_key)[0] == new_key);
        assert(first_index(Seq::<Seq<char>>::empty(), k) is None);
    }
}

} // verus!
