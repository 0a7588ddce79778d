//! The decisions the rendering engine makes about entities: what the viewer is called,
//! when a pronoun is ambiguous, how a colliding name is told apart, which ordinal an
//! entity gets, and how a group is listed.
use vstd::prelude::*;
use crate::grammar::string_views;
use vstd::arithmetic::power2::{lemma2_to64_rest, lemma_pow2_pos, lemma_pow2_strictly_increases, lemma_pow2_unfold, pow2};
use crate::models::{
    adjectives_spec, ActorStance, Gender, RenderContext, TemplateEntity, NULL_VIEWER, RecentEntity,
    RecentModel, recent_views, history_view,
};
use crate::parser::{TagFlags, TAG_PROPERTY_SEP};
use crate::keymap::KeyMap;
use crate::context::{entity_for, evicted, flags_for, enforce_anaphora_limit, refresh_flags, same_setup};
use crate::models::{gender_spec, opt_view, recent_position, recent_keys, ordinals_model, OrdinalState};
use crate::text::{find_key, keys_of, last_char_index, rfind_char, subrange_of};
use crate::models::{name_spec, long_name_spec, proper_spec};
use crate::resolve::found_views;
use crate::text::{first_index, split_words, words, str_to_lowercase, chars_trim, trim, unicode_lowercase};
use crate::text::{
    append_chars, append_str, chars_eq, chars_lt, chars_of, chars_trim_end, join, string_of,
    text_lt, trim_end, views, starts_with, str_eq,
};

verus! {

// ---------------------------------------------------------------------------
// Rendering parameters
// ---------------------------------------------------------------------------

/// What the engine knows of an entity reference while rendering it.
pub struct EntityRefParams<'p> {
    /// The template key of the entity.
    pub key: &'p str,
    /// The article written in the tag, if any.
    pub article: Option<&'p str>,
    /// The pronoun type written in the tag ("subj", "obj", ...), if any.
    pub p_type: Option<&'p str>,
    /// The key of the owner in a narrative possessive, if any.
    pub owner_key: Option<&'p str>,
    /// The flags of the owner's tag.
    pub owner_flags: TagFlags,
    /// Adjectives written in the tag, if any.
    pub adjectives: Option<&'p str>,
    /// The flags of the tag.
    pub flags: TagFlags,
    /// The ordinal assigned to the entity, if any.
    pub ordinal: Option<usize>,
}

/// What the engine knows of a pronoun's situation.
#[derive(Clone, Copy, Debug, PartialEq, Eq, Structural)]
pub struct PronounContextFlags {
    /// The entity is plural.
    pub is_plural: bool,
    /// The entity is a group.
    pub is_group: bool,
    /// The entity is the viewer.
    pub is_viewer: bool,
    /// The entity is the active subject of the clause.
    pub is_active_subject: bool,
    /// The pronoun is reflexive.
    pub is_reflexive: bool,
    /// The entity was already mentioned.
    pub already_seen: bool,
}

/// The form of the viewer's own name that is asked for.
#[derive(Clone, Copy, Debug, PartialEq, Eq, Structural)]
pub struct ViewerNameFlags {
    /// The viewer is plural.
    pub is_plural: bool,
    /// The possessive form is asked for.
    pub is_possessive: bool,
    /// The form is capitalized.
    pub is_capitalized: bool,
    /// The object form is asked for.
    pub is_obj: bool,
}

/// Whether a whole tag is capitalized: its key or its article was.
pub fn should_capitalize_whole_tag(params: &EntityRefParams) -> (r: bool)
    ensures
        r == (params.flags.is_capitalized || params.flags.article_capitalized),
{
    params.flags.is_capitalized() || params.flags.article_capitalized()
}

/// The word for the viewer in the first and second person ("I", "me", "my", "we", "us",
/// "our", "you", "your", capitalized as asked); empty in the third person.
pub open spec fn viewer_word(stance: ActorStance, f: ViewerNameFlags) -> Seq<char> {
    match stance {
        ActorStance::FirstPerson => if !f.is_plural {
            if f.is_possessive {
                if f.is_capitalized { "My"@ } else { "my"@ }
            } else if f.is_obj {
                if f.is_capitalized { "Me"@ } else { "me"@ }
            } else {
                "I"@
            }
        } else if f.is_possessive {
            if f.is_capitalized { "Our"@ } else { "our"@ }
        } else if f.is_obj {
            if f.is_capitalized { "Us"@ } else { "us"@ }
        } else if f.is_capitalized {
            "We"@
        } else {
            "we"@
        },
        ActorStance::SecondPerson => if f.is_possessive {
            if f.is_capitalized { "Your"@ } else { "your"@ }
        } else if f.is_capitalized {
            "You"@
        } else {
            "you"@
        },
        ActorStance::ThirdPerson => ""@,
    }
}

/// The word for the viewer (see `viewer_word`).
pub fn viewer_name(stance: ActorStance, flags: ViewerNameFlags) -> (r: &'static str)
    ensures
        r@ == viewer_word(stance, flags),
{
    match stance {
        ActorStance::FirstPerson => {
            if !flags.is_plural {
                if flags.is_possessive {
                    if flags.is_capitalized { "My" } else { "my" }
                } else if flags.is_obj {
                    if flags.is_capitalized { "Me" } else { "me" }
                } else {
                    "I"
                }
            } else if flags.is_possessive {
                if flags.is_capitalized { "Our" } else { "our" }
            } else if flags.is_obj {
                if flags.is_capitalized { "Us" } else { "us" }
            } else if flags.is_capitalized {
                "We"
            } else {
                "we"
            }
        },
        ActorStance::SecondPerson => {
            if flags.is_possessive {
                if flags.is_capitalized { "Your" } else { "your" }
            } else if flags.is_capitalized {
                "You"
            } else {
                "you"
            }
        },
        ActorStance::ThirdPerson => "",
    }
}

/// The viewer id under which an entity is named: the sentinel of the Director Stance when
/// the third person is forced or is the context's stance, else the context's viewer.
pub fn effective_viewer_id<'a>(ctx: &RenderContext<'a>, force_3rd_person: bool) -> (r: &'a str)
    ensures
        r == (if force_3rd_person || ctx.stance == ActorStance::ThirdPerson { NULL_VIEWER } else { ctx.viewer_id }),
{
    if force_3rd_person || ctx.stance == ActorStance::ThirdPerson {
        NULL_VIEWER
    } else {
        ctx.viewer_id
    }
}

/// The last character of a text that is not white space.
pub open spec fn last_visible(s: Seq<char>) -> Option<char> {
    let t = trim_end(s);
    if t.len() > 0 { Some(t.last()) } else { None }
}

/// The possessive suffix of a name: a bare apostrophe after a plural ending in 's' or 'S',
/// else "'s".
pub open spec fn possessive_suffix(name: Seq<char>, is_plural: bool) -> Seq<char> {
    if is_plural && (last_visible(name) == Some('s') || last_visible(name) == Some('S')) {
        "'"@
    } else {
        "'s"@
    }
}

/// The rendering engine: the text helpers that the rendering of entity references uses.
pub struct PerspectiveEngine;

impl PerspectiveEngine {
    /// The last character of a text that is not white space.
    pub fn get_last_visible_char(input: &str) -> (r: Option<char>)
        ensures
            r == last_visible(input@),
    {
        let t = chars_trim_end(&chars_of(input));
        if t.len() > 0 {
            Some(t[t.len() - 1])
        } else {
            None
        }
    }

    /// The possessive suffix of a name (see `possessive_suffix`).
    pub fn get_possessive_suffix(name: &str, is_plural: bool) -> (r: &'static str)
        ensures
            r@ == possessive_suffix(name@, is_plural),
    {
        let last = PerspectiveEngine::get_last_visible_char(name);
        let ends_in_s = match last {
            Some(c) => c == 's' || c == 'S',
            None => false,
        };
        if ends_in_s && is_plural {
            "'"
        } else {
            "'s"
        }
    }
}

// ---------------------------------------------------------------------------
// Anaphora
// ---------------------------------------------------------------------------

/// Records a key in a memory slot (last mentioned, active subject).
pub fn update_memory(memory: &mut Option<String>, key: &str)
    ensures
        crate::models::opt_view(*final(memory)) == Some(key@),
{
    let same = match memory {
        Some(m) => str_eq(m.as_str(), key),
        None => false,
    };
    if !same {
        *memory = Some(String::from_str(key));
    }
}

/// Whether `child` is a property path under `parent` ("source.weapon" under "source").
pub open spec fn is_sub_path(parent: Seq<char>, child: Seq<char>) -> bool {
    starts_with(child, parent) && child.len() > parent.len() && child[parent.len() as int] == '.'
}

/// Whether `child` is a property path under `parent` (see `is_sub_path`).
pub fn is_sub_property_path(parent: &str, child: &str) -> (r: bool)
    ensures
        r == is_sub_path(parent@, child@),
{
    let p = chars_of(parent);
    let c = chars_of(child);
    crate::text::chars_starts_with(&c, &p) && c.len() > p.len() && c[p.len()] == '.'
}

/// Whether another remembered entity counts as the viewer for pronoun purposes: in the
/// Director Stance (forced or not) by its Director-Stance flag, else by its viewer flag.
pub open spec fn counts_as_viewer(ctx: RenderContext, r: RecentModel, flags: TagFlags) -> bool {
    if flags.force_3rd_person || ctx.stance == ActorStance::ThirdPerson {
        r.flags.is_viewer_forced
    } else {
        r.flags.is_viewer_normal
    }
}

/// Whether a pronoun for the entity would be ambiguous: another remembered entity that is
/// not the viewer has the same gender and plurality.
pub open spec fn pronoun_ambiguous(ctx: RenderContext, key: Seq<char>, g: Gender, pc: PronounContextFlags, flags: TagFlags) -> bool {
    let rs = recent_views(ctx.recent_entities@);
    exists|i: int|
        0 <= i < rs.len() && (#[trigger] rs[i]).key != key && !counts_as_viewer(ctx, rs[i], flags) && g == rs[i].gender
            && pc.is_plural == rs[i].flags.is_plural
}

/// Whether a pronoun for the entity would be ambiguous (see `pronoun_ambiguous`).
pub fn is_pronoun_ambiguous(ctx: &RenderContext, key: &str, effective_gender: Gender, pronoun_ctx: PronounContextFlags, flags: TagFlags) -> (r: bool)
    ensures
        r == pronoun_ambiguous(*ctx, key@, effective_gender, pronoun_ctx, flags),
{
    let ghost rs = recent_views(ctx.recent_entities@);
    let is_plural = pronoun_ctx.is_plural;
    let mut i: usize = 0;
    while i < ctx.recent_entities.len()
        invariant
            i <= ctx.recent_entities.len(),
            rs == recent_views(ctx.recent_entities@),
            is_plural == pronoun_ctx.is_plural,
            forall|k: int| 0 <= k < i ==> !((#[trigger] rs[k]).key != key@ && !counts_as_viewer(*ctx, rs[k], flags)
                && effective_gender == rs[k].gender && is_plural == rs[k].flags.is_plural),
        decreases ctx.recent_entities.len() - i,
    {
        let other = &ctx.recent_entities[i];
        assert(rs[i as int] == other@);
        if !str_eq(other.key.as_str(), key) {
            let other_is_viewer = if flags.force_3rd_person() || ctx.stance == ActorStance::ThirdPerson {
                other.flags.is_viewer_forced
            } else {
                other.flags.is_viewer_normal
            };
            if !other_is_viewer && effective_gender == other.gender && is_plural == other.flags.is_plural {
                assert(other_is_viewer == counts_as_viewer(*ctx, rs[i as int], flags));
                assert(rs[i as int].key != key@);
                return true;
            }
        }
        i = i + 1;
    }
    false
}

/// The entity that a key names, as resolved ahead of rendering or from the context.
pub open spec fn resolved_entity(ctx: RenderContext, pre: KeyMap<&TemplateEntity>, key: Seq<char>) -> Option<TemplateEntity> {
    if pre.map().contains_key(key) {
        Some(*pre.map()[key])
    } else {
        entity_for(ctx, key)
    }
}

/// Resolves a key ahead of rendering or from the context (see `resolved_entity`).
pub fn resolve_pre<'a>(ctx: &RenderContext<'a>, pre: &KeyMap<&'a TemplateEntity>, key: &str) -> (r: Option<&'a TemplateEntity>)
    ensures
        match r {
            Some(e) => resolved_entity(*ctx, *pre, key@) == Some(*e),
            None => resolved_entity(*ctx, *pre, key@) is None,
        },
{
    match pre.get(key) {
        Some(e) => Some(*e),
        None => ctx.get_entity(key),
    }
}

/// Whether the entity is the active subject of the clause: its key is the subject's, or the
/// subject's key names the same entity and neither key is a property path under the other.
pub open spec fn is_active_subject(ctx: RenderContext, e: TemplateEntity, key: Seq<char>, pre: KeyMap<&TemplateEntity>) -> bool {
    match opt_view(ctx.active_subject) {
        Some(ak) => if ak == key {
            true
        } else {
            match resolved_entity(ctx, pre, ak) {
                Some(ae) => !(is_sub_path(ak, key) || is_sub_path(key, ak)) && e.id@ == ae.id@,
                None => false,
            }
        },
        None => false,
    }
}

/// Whether the entity is the active subject of the clause (see `is_active_subject`).
pub fn check_is_active_subject<'a>(ctx: &RenderContext<'a>, entity: &TemplateEntity, key: &str, pre_resolved: &KeyMap<&'a TemplateEntity>) -> (r: bool)
    ensures
        r == is_active_subject(*ctx, *entity, key@, *pre_resolved),
{
    match &ctx.active_subject {
        Some(active_key) => {
            if str_eq(active_key.as_str(), key) {
                return true;
            }
            match resolve_pre(ctx, pre_resolved, active_key.as_str()) {
                Some(active_entity) => {
                    if is_sub_property_path(active_key.as_str(), key) || is_sub_property_path(key, active_key.as_str()) {
                        return false;
                    }
                    crate::models::is_same_entity(entity, active_entity)
                },
                None => false,
            }
        },
        None => false,
    }
}

/// The adjectives written in a tag, word by word, trimmed and lower-cased, empty ones
/// dropped.
pub open spec fn adjective_words(adjectives: Option<Seq<char>>) -> Seq<Seq<char>> {
    match adjectives {
        Some(a) => words(a).map_values(|w: Seq<char>| unicode_lowercase(trim(w))).filter(|w: Seq<char>| w.len() > 0),
        None => seq![],
    }
}

/// Adds the new adjectives that are not listed yet, in order.
pub open spec fn merged_adjectives(old: Seq<Seq<char>>, new: Seq<Seq<char>>) -> Seq<Seq<char>>
    decreases new.len(),
{
    if new.len() == 0 {
        old
    } else {
        let m = merged_adjectives(old, new.drop_last());
        if m.contains(new.last()) { m } else { m.push(new.last()) }
    }
}

/// The memory after an entity is rendered: its entry moves to the newest end with
/// refreshed gender and flags (its pin kept), the new adjectives merged in and the name
/// it was rendered under recorded; or a new entry is added there.
pub open spec fn after_tracking(rs: Seq<RecentModel>, key: Seq<char>, e: TemplateEntity, viewer: Seq<char>, adjs: Seq<Seq<char>>, rn: Option<Seq<char>>) -> Seq<RecentModel> {
    match first_index(recent_keys(rs), key) {
        Some(i) => rs.remove(i).push(
            RecentModel {
                gender: gender_spec(e),
                flags: flags_for(e, viewer, rs[i].flags.is_pinned),
                adjectives: merged_adjectives(rs[i].adjectives, adjs),
                resolved_name: match rn {
                    Some(n) => Some(n),
                    None => rs[i].resolved_name,
                },
                ..rs[i]
            },
        ),
        None => rs.push(
            RecentModel {
                key,
                gender: gender_spec(e),
                flags: flags_for(e, viewer, false),
                adjectives: adjs,
                resolved_name: rn,
            },
        ),
    }
}

/// Splits the adjectives written in a tag (see `adjective_words`).
fn split_adjectives(adjectives: Option<&str>) -> (r: Vec<String>)
    ensures
        string_views(r@) == adjective_words(match adjectives { Some(a) => Some(a@), None => None }),
{
    match adjectives {
        Some(a) => {
            let ws = split_words(&chars_of(a));
            let ghost lowered = words(a@).map_values(|w: Seq<char>| unicode_lowercase(trim(w)));
            let ghost pred = |w: Seq<char>| w.len() > 0;
            let mut out: Vec<String> = Vec::new();
            let mut i: usize = 0;
            assert(lowered.take(0).filter(pred) =~= Seq::<Seq<char>>::empty());
            while i < ws.len()
                invariant
                    i <= ws.len(),
                    ws@.map_values(|w: Vec<char>| w@) == words(a@),
                    lowered == words(a@).map_values(|w: Seq<char>| unicode_lowercase(trim(w))),
                    pred == (|w: Seq<char>| w.len() > 0),
                    string_views(out@) == lowered.take(i as int).filter(pred),
                decreases ws.len() - i,
            {
                let clean = str_to_lowercase(string_of(&chars_trim(&ws[i])).as_str());
                assert(lowered[i as int] == clean@);
                assert(lowered.take(i + 1).drop_last() =~= lowered.take(i as int));
                reveal_with_fuel(Seq::<_>::filter, 1);
                let ghost before = string_views(out@);
                if clean.as_str().unicode_len() > 0 {
                    out.push(clean);
                    assert(string_views(out@) =~= before.push(lowered[i as int]));
                } else {
                    assert(string_views(out@) =~= before);
                }
                i = i + 1;
            }
            assert(lowered.take(i as int) =~= lowered);
            out
        },
        None => {
            let out: Vec<String> = Vec::new();
            assert(string_views(out@) =~= Seq::<Seq<char>>::empty());
            out
        },
    }
}

/// Whether a list of strings holds a string.
fn contains_string(l: &Vec<String>, x: &String) -> (r: bool)
    ensures
        r == string_views(l@).contains(x@),
{
    strings_contain(l, &chars_of(x.as_str()))
}

/// Records that an entity was rendered (see `after_tracking`) and enforces the memory limit.
/// The adjectives are the words written in the tag, protocol markup already removed.
pub fn track_recent_entity(
    ctx: &mut RenderContext,
    key: &str,
    entity: &TemplateEntity,
    adjectives: Option<&str>,
    resolved_name: Option<&str>,
)
    ensures
        same_setup(*final(ctx), *old(ctx)),
        final(ctx).ordinals == old(ctx).ordinals,
        final(ctx).ordinal_history == old(ctx).ordinal_history,
        (recent_views(final(ctx).recent_entities@), opt_view(final(ctx).last_mentioned), opt_view(final(ctx).active_subject))
            == evicted(
                old(ctx).anaphora_limit as nat,
                after_tracking(
                    recent_views(old(ctx).recent_entities@),
                    key@,
                    *entity,
                    old(ctx).viewer_id@,
                    adjective_words(match adjectives { Some(a) => Some(a@), None => None }),
                    match resolved_name { Some(n) => Some(n@), None => None },
                ),
                opt_view(old(ctx).last_mentioned),
                opt_view(old(ctx).active_subject),
            ),
{
    let new_adjs = split_adjectives(adjectives);
    let ghost v = recent_views(ctx.recent_entities@);
    let ghost na = string_views(new_adjs@);
    let ghost rn = match resolved_name { Some(n) => Some(n@), None => None };
    match recent_position(&ctx.recent_entities, key) {
        Some(pos) => {
            let mut item = ctx.recent_entities.remove(pos);
            assert(recent_views(ctx.recent_entities@) =~= v.remove(pos as int));
            let ghost old_adjs = string_views(item.adjectives@);
            item.gender = entity.gender();
            item.flags = refresh_flags(entity, ctx.viewer_id, item.flags.is_pinned);
            let ghost k0 = item.key;
            let ghost g0 = item.gender;
            let ghost f0 = item.flags;
            let ghost rn0 = item.resolved_name;
            assert(v[pos as int].key == k0@);
            let mut j: usize = 0;
            assert(na.take(0) =~= Seq::<Seq<char>>::empty());
            while j < new_adjs.len()
                invariant
                    j <= new_adjs.len(),
                    na == string_views(new_adjs@),
                    item.key == k0,
                    item.gender == g0,
                    item.flags == f0,
                    item.resolved_name == rn0,
                    string_views(item.adjectives@) == merged_adjectives(old_adjs, na.take(j as int)),
                decreases new_adjs.len() - j,
            {
                assert(na.take(j + 1).drop_last() =~= na.take(j as int));
                assert(na.take(j + 1).last() == new_adjs@[j as int]@);
                if !contains_string(&item.adjectives, &new_adjs[j]) {
                    let ghost before = string_views(item.adjectives@);
                    item.adjectives.push(new_adjs[j].clone());
                    assert(string_views(item.adjectives@) =~= before.push(new_adjs@[j as int]@));
                }
                j = j + 1;
            }
            assert(na.take(j as int) =~= na);
            match resolved_name {
                Some(n) => {
                    item.resolved_name = Some(String::from_str(n));
                },
                None => {},
            }
            ctx.recent_entities.push(item);
            assert(recent_views(ctx.recent_entities@) =~= after_tracking(v, key@, *entity, ctx.viewer_id@, na, rn));
        },
        None => {
            let flags = refresh_flags(entity, ctx.viewer_id, false);
            let item = RecentEntity {
                key: String::from_str(key),
                gender: entity.gender(),
                flags,
                adjectives: new_adjs,
                resolved_name: match resolved_name {
                    Some(n) => Some(String::from_str(n)),
                    None => None,
                },
            };
            ctx.recent_entities.push(item);
            assert(recent_views(ctx.recent_entities@) =~= after_tracking(v, key@, *entity, ctx.viewer_id@, na, rn));
        },
    }
    enforce_anaphora_limit(
        ctx.anaphora_limit,
        &mut ctx.recent_entities,
        &mut ctx.last_mentioned,
        &mut ctx.active_subject,
    );
}

// ---------------------------------------------------------------------------
// Ordinals
// ---------------------------------------------------------------------------

/// The names of the ordinal records.
pub open spec fn ordinal_names(ms: Seq<(Seq<char>, usize, Seq<(Seq<char>, usize)>)>) -> Seq<Seq<char>> {
    ms.map_values(|m: (Seq<char>, usize, Seq<(Seq<char>, usize)>)| m.0)
}

/// The keys of the members of an ordinal record.
pub open spec fn member_keys(ms: Seq<(Seq<char>, usize)>) -> Seq<Seq<char>> {
    ms.map_values(|m: (Seq<char>, usize)| m.0)
}

/// The ordinal records after an entity is named `name` (a record for the name is added
/// when there is none), and the ordinal it gets: while the name collides, a key keeps the
/// ordinal it was given, and a new key gets the next one; when it does not collide, the
/// record restarts with the key as the first member and no ordinal is given.
pub open spec fn ordinal_assignment(ms: Seq<(Seq<char>, usize, Seq<(Seq<char>, usize)>)>, name: Seq<char>, key: Seq<char>, collision: bool) -> (Seq<(Seq<char>, usize, Seq<(Seq<char>, usize)>)>, Option<usize>) {
    let ms1 = match first_index(ordinal_names(ms), name) {
        Some(_) => ms,
        None => ms.push((name, 1usize, seq![])),
    };
    match first_index(ordinal_names(ms1), name) {
        Some(i) => {
            let st = ms1[i];
            if collision {
                match first_index(member_keys(st.2), key) {
                    Some(j) => (ms1, Some(st.2[j].1)),
                    None => (ms1.update(i, (st.0, (st.1 + 1) as usize, st.2.push((key, st.1)))), Some(st.1)),
                }
            } else {
                (ms1.update(i, (st.0, 2usize, seq![(key, 1usize)])), None)
            }
        },
        None => (ms1, None),
    }
}

/// The ordinal that a key holds in its record after an assignment: the one it is given, or
/// 1 when its record restarts with it.
pub open spec fn held_ordinal(given: Option<usize>) -> usize {
    match given {
        Some(o) => o,
        None => 1usize,
    }
}

/// Gives the entity under `key` its ordinal among the entities named `name` (see
/// `ordinal_assignment`), and records the ordinal it now holds as its most recent one. An
/// ordinal counter that has reached `usize::MAX` cannot advance.
pub fn assign_ordinal(ctx: &mut RenderContext, name: &str, key: &str, name_collision: bool) -> (r: Option<usize>)
    requires
        forall|k: int| 0 <= k < old(ctx).ordinals@.len() ==> (#[trigger] old(ctx).ordinals@[k]).1.next_ordinal < usize::MAX,
    ensures
        same_setup(*final(ctx), *old(ctx)),
        final(ctx).recent_entities == old(ctx).recent_entities,
        final(ctx).last_mentioned == old(ctx).last_mentioned,
        final(ctx).active_subject == old(ctx).active_subject,
        (ordinals_model(final(ctx).ordinals@), r) == ordinal_assignment(ordinals_model(old(ctx).ordinals@), name@, key@, name_collision),
        history_view(final(ctx).ordinal_history@) == history_view(old(ctx).ordinal_history@).push((key@, held_ordinal(r))),
{
    let ghost m0 = ordinals_model(ctx.ordinals@);
    let ghost h0 = history_view(ctx.ordinal_history@);
    assert(ordinal_names(m0) =~= keys_of(ctx.ordinals@));
    let i = match find_key(&ctx.ordinals, name) {
        Some(i) => i,
        None => {
            ctx.ordinals.push((String::from_str(name), OrdinalState { next_ordinal: 1, members: Vec::new() }));
            proof {
                let last = ctx.ordinals@.last();
                assert(last.1.members@.map_values(|m: (String, usize)| (m.0@, m.1)) =~= Seq::<(Seq<char>, usize)>::empty());
                assert(ordinals_model(ctx.ordinals@) =~= m0.push((name@, 1usize, seq![])));
                let names1 = ordinal_names(ordinals_model(ctx.ordinals@));
                assert(names1 =~= ordinal_names(m0).push(name@));
                crate::text::lemma_first_index(names1, name@, m0.len() as int);
            }
            ctx.ordinals.len() - 1
        },
    };
    let ghost m1 = ordinals_model(ctx.ordinals@);
    assert(ordinal_names(m1) =~= keys_of(ctx.ordinals@));
    assert(m1 == (match first_index(ordinal_names(m0), name@) {
        Some(_) => m0,
        None => m0.push((name@, 1usize, seq![])),
    }));
    proof {
        crate::text::lemma_first_index_valid(ordinal_names(m1), name@);
    }
    let (n, mut state) = ctx.ordinals.remove(i);
    let ghost st = m1[i as int];
    assert(st == (n@, state.next_ordinal, state.members@.map_values(|m: (String, usize)| (m.0@, m.1))));
    assert(member_keys(st.2) =~= keys_of(state.members@));
    let result = if name_collision {
        match find_key(&state.members, key) {
            Some(j) => Some(state.members[j].1),
            None => {
                let o = state.next_ordinal;
                state.next_ordinal = o + 1;
                let ghost before = state.members@;
                state.members.push((String::from_str(key), o));
                assert(state.members@.map_values(|m: (String, usize)| (m.0@, m.1)) =~= st.2.push((key@, o)));
                Some(o)
            },
        }
    } else {
        state.members = vec![(String::from_str(key), 1)];
        state.next_ordinal = 2;
        assert(state.members@.map_values(|m: (String, usize)| (m.0@, m.1)) =~= seq![(key@, 1usize)]);
        None
    };
    ctx.ordinals.insert(i, (n, state));
    assert(ordinals_model(ctx.ordinals@) =~= (ordinal_assignment(m0, name@, key@, name_collision)).0);
    let held: usize = match result {
        Some(o) => o,
        None => 1,
    };
    ctx.ordinal_history.push((String::from_str(key), held));
    assert(history_view(ctx.ordinal_history@) =~= h0.push((key@, held_ordinal(result))));
    result
}

// ---------------------------------------------------------------------------
// Telling colliding names apart by adjectives
// ---------------------------------------------------------------------------

/// The entities that references point to.
pub open spec fn entity_refs(v: Seq<&TemplateEntity>) -> Seq<TemplateEntity> {
    v.map_values(|e: &TemplateEntity| *e)
}

/// Whether an entity lists the adjective.
pub open spec fn lists_adjective(e: TemplateEntity, adj: Seq<char>) -> bool {
    match adjectives_spec(e) {
        Some(l) => l.contains(adj),
        None => false,
    }
}

/// Whether every collider lists the adjective (then it tells the entity from none of them).
pub open spec fn shared_by_all(adj: Seq<char>, colliders: Seq<TemplateEntity>) -> bool {
    forall|k: int| 0 <= k < colliders.len() ==> lists_adjective(#[trigger] colliders[k], adj)
}

/// The adjectives worth trying, in order: those that not every collider shares, at most
/// `limit` of them.
pub open spec fn searchable_adjectives(adjs: Seq<Seq<char>>, colliders: Seq<TemplateEntity>, limit: nat) -> Seq<Seq<char>>
    decreases adjs.len(),
{
    if adjs.len() == 0 || limit == 0 {
        seq![]
    } else if shared_by_all(adjs[0], colliders) {
        searchable_adjectives(adjs.drop_first(), colliders, limit)
    } else {
        seq![adjs[0]] + searchable_adjectives(adjs.drop_first(), colliders, (limit - 1) as nat)
    }
}

/// The adjectives picked by the bits of `mask` (bit j picks the j-th), in order.
pub open spec fn subset_of(s: Seq<Seq<char>>, mask: nat) -> Seq<Seq<char>>
    decreases s.len(),
{
    if s.len() == 0 {
        seq![]
    } else {
        (if mask % 2 == 1 { seq![s[0]] } else { seq![] }) + subset_of(s.drop_first(), mask / 2)
    }
}

/// Whether an entity lists every adjective of the subset.
pub open spec fn lists_all(e: TemplateEntity, subset: Seq<Seq<char>>) -> bool {
    match adjectives_spec(e) {
        Some(l) => forall|i: int| 0 <= i < subset.len() ==> l.contains(#[trigger] subset[i]),
        None => false,
    }
}

/// How many colliders list every adjective of the subset.
pub open spec fn collider_count(colliders: Seq<TemplateEntity>, subset: Seq<Seq<char>>) -> nat
    decreases colliders.len(),
{
    if colliders.len() == 0 {
        0
    } else {
        collider_count(colliders.drop_last(), subset) + if lists_all(colliders.last(), subset) { 1nat } else { 0nat }
    }
}

/// The best mask among 1 .. k-1: the first that leaves the fewest colliders, and among those
/// the fewest adjectives; a mask must leave fewer colliders than there are to count.
pub open spec fn best_mask(s: Seq<Seq<char>>, colliders: Seq<TemplateEntity>, k: nat) -> Option<nat>
    decreases k,
{
    if k <= 1 {
        None
    } else {
        let prev = best_mask(s, colliders, (k - 1) as nat);
        let m = (k - 1) as nat;
        let c = collider_count(colliders, subset_of(s, m));
        match prev {
            None => if c < colliders.len() { Some(m) } else { None },
            Some(b) => {
                let cb = collider_count(colliders, subset_of(s, b));
                if c < cb || (c == cb && subset_of(s, m).len() < subset_of(s, b).len()) {
                    Some(m)
                } else {
                    Some(b)
                }
            },
        }
    }
}

/// Inserts a text into a sorted list before the first element that does not come before it.
pub open spec fn insert_text(sorted: Seq<Seq<char>>, x: Seq<char>) -> Seq<Seq<char>>
    decreases sorted.len(),
{
    if sorted.len() == 0 {
        seq![x]
    } else if text_lt(sorted[0], x) {
        seq![sorted[0]] + insert_text(sorted.drop_first(), x)
    } else {
        seq![x] + sorted
    }
}

/// The texts in increasing order.
pub open spec fn sort_texts(s: Seq<Seq<char>>) -> Seq<Seq<char>>
    decreases s.len(),
{
    if s.len() == 0 {
        seq![]
    } else {
        insert_text(sort_texts(s.drop_last()), s.last())
    }
}

/// A name that tells the entity from its colliders by adjectives: the best subset of its
/// adjectives (see `best_mask`), sorted and joined before the base name, and whether some
/// collider still shares them all. `None` when the entity has no adjectives, the limit is
/// 0, no adjective is worth trying, or no subset leaves fewer colliders.
pub open spec fn adjective_disambiguation(e: TemplateEntity, colliders: Seq<TemplateEntity>, base: Seq<char>, limit: nat) -> Option<(Seq<char>, bool)> {
    match adjectives_spec(e) {
        None => None,
        Some(adjs) => {
            let safe = if limit < 63 { limit } else { 63 };
            if adjs.len() == 0 || safe == 0 {
                None
            } else {
                let s = searchable_adjectives(adjs, colliders, safe);
                if s.len() == 0 {
                    None
                } else {
                    match best_mask(s, colliders, pow2(s.len())) {
                        Some(b) => Some((
                            join(sort_texts(subset_of(s, b)), " "@) + " "@ + base,
                            collider_count(colliders, subset_of(s, b)) > 0,
                        )),
                        None => None,
                    }
                }
            }
        },
    }
}

/// Whether the list of strings holds the text.
fn strings_contain(l: &Vec<String>, x: &Vec<char>) -> (r: bool)
    ensures
        r == string_views(l@).contains(x@),
{
    let mut i: usize = 0;
    while i < l.len()
        invariant
            i <= l.len(),
            forall|k: int| 0 <= k < i ==> string_views(l@)[k] != x@,
        decreases l.len() - i,
    {
        if chars_eq(&chars_of(l[i].as_str()), x) {
            assert(string_views(l@)[i as int] == x@);
            return true;
        }
        i = i + 1;
    }
    false
}

/// The adjective lists of the colliders.
fn collider_adjectives(colliders: &Vec<&TemplateEntity>) -> (r: Vec<Option<Vec<String>>>)
    ensures
        r@.len() == colliders@.len(),
        forall|k: int| 0 <= k < r@.len() ==> match #[trigger] r@[k] {
            Some(a) => adjectives_spec(*colliders@[k]) == Some(string_views(a@)),
            None => adjectives_spec(*colliders@[k]) is None,
        },
{
    let mut r: Vec<Option<Vec<String>>> = Vec::new();
    let mut i: usize = 0;
    while i < colliders.len()
        invariant
            i <= colliders.len(),
            r@.len() == i,
            forall|k: int| 0 <= k < i ==> match #[trigger] r@[k] {
                Some(a) => adjectives_spec(*colliders@[k]) == Some(string_views(a@)),
                None => adjectives_spec(*colliders@[k]) is None,
            },
        decreases colliders.len() - i,
    {
        r.push(colliders[i].adjectives());
        i = i + 1;
    }
    r
}

/// Whether the adjective list holds every adjective of the subset.
fn holds_all(l: &Option<Vec<String>>, subset: &Vec<Vec<char>>) -> (r: bool)
    ensures
        r == match l {
            Some(a) => forall|i: int| 0 <= i < subset@.len() ==> string_views(a@).contains(#[trigger] views(subset@)[i]),
            None => false,
        },
{
    match l {
        Some(a) => {
            let mut i: usize = 0;
            while i < subset.len()
                invariant
                    i <= subset.len(),
                    *l == Some(*a),
                    forall|k: int| 0 <= k < i ==> string_views(a@).contains(#[trigger] views(subset@)[k]),
                decreases subset.len() - i,
            {
                if !strings_contain(a, &subset[i]) {
                    assert(views(subset@)[i as int] == subset@[i as int]@);
                    assert(!string_views(a@).contains(views(subset@)[i as int]));
                    assert(!(forall|q: int| 0 <= q < subset@.len() ==> string_views(a@).contains(#[trigger] views(subset@)[q])));
                    return false;
                }
                i = i + 1;
            }
            true
        },
        None => false,
    }
}

/// How many colliders list every adjective of the subset (see `collider_count`).
fn count_colliders(colliders: &Vec<&TemplateEntity>, adjs: &Vec<Option<Vec<String>>>, subset: &Vec<Vec<char>>) -> (r: usize)
    requires
        adjs@.len() == colliders@.len(),
        forall|k: int| 0 <= k < adjs@.len() ==> match #[trigger] adjs@[k] {
            Some(a) => adjectives_spec(*colliders@[k]) == Some(string_views(a@)),
            None => adjectives_spec(*colliders@[k]) is None,
        },
    ensures
        r == collider_count(entity_refs(colliders@), views(subset@)),
        r <= colliders@.len(),
{
    let ghost cs = entity_refs(colliders@);
    let mut n: usize = 0;
    let mut i: usize = 0;
    assert(cs.take(0) =~= Seq::<TemplateEntity>::empty());
    while i < colliders.len()
        invariant
            i <= colliders.len(),
            cs == entity_refs(colliders@),
            adjs@.len() == colliders@.len(),
            forall|k: int| 0 <= k < adjs@.len() ==> match #[trigger] adjs@[k] {
                Some(a) => adjectives_spec(*colliders@[k]) == Some(string_views(a@)),
                None => adjectives_spec(*colliders@[k]) is None,
            },
            n == collider_count(cs.take(i as int), views(subset@)),
            n <= i,
        decreases colliders.len() - i,
    {
        assert(cs.take(i + 1).drop_last() =~= cs.take(i as int));
        assert(cs.take(i + 1).last() == *colliders@[i as int]);
        if holds_all(&adjs[i], subset) {
            n = n + 1;
        }
        i = i + 1;
    }
    assert(cs.take(i as int) =~= cs);
    n
}

/// The adjectives picked by the bits of the mask (see `subset_of`).
fn subset_exec(s: &Vec<Vec<char>>, mask: u64) -> (r: Vec<Vec<char>>)
    ensures
        views(r@) == subset_of(views(s@), mask as nat),
{
    let ghost sv = views(s@);
    let mut r: Vec<Vec<char>> = Vec::new();
    let mut bits = mask;
    let mut j: usize = 0;
    assert(sv.skip(0) =~= sv);
    while j < s.len()
        invariant
            j <= s.len(),
            sv == views(s@),
            views(r@) + subset_of(sv.skip(j as int), bits as nat) == subset_of(sv, mask as nat),
        decreases s.len() - j,
    {
        let ghost before = views(r@);
        assert(sv.skip(j as int).drop_first() =~= sv.skip(j + 1));
        assert(sv.skip(j as int)[0] == s@[j as int]@);
        if bits % 2 == 1 {
            r.push(s[j].clone());
            assert(views(r@) =~= before.push(s@[j as int]@));
        }
        bits = bits / 2;
        j = j + 1;
    }
    assert(sv.skip(j as int) =~= Seq::<Seq<char>>::empty());
    assert(views(r@) + subset_of(Seq::<Seq<char>>::empty(), bits as nat) =~= views(r@));
    r
}

/// Inserts a text into a sorted list (see `insert_text`).
fn insert_text_exec(sorted: &Vec<Vec<char>>, x: &Vec<char>) -> (r: Vec<Vec<char>>)
    ensures
        views(r@) == insert_text(views(sorted@), x@),
{
    let ghost sv = views(sorted@);
    let mut r: Vec<Vec<char>> = Vec::new();
    let mut i: usize = 0;
    assert(sv.skip(0) =~= sv);
    while i < sorted.len() && chars_lt(&sorted[i], x)
        invariant
            i <= sorted.len(),
            sv == views(sorted@),
            views(r@) + insert_text(sv.skip(i as int), x@) == insert_text(sv, x@),
        decreases sorted.len() - i,
    {
        let ghost before = views(r@);
        assert(sv.skip(i as int).drop_first() =~= sv.skip(i + 1));
        assert(sv.skip(i as int)[0] == sorted@[i as int]@);
        r.push(sorted[i].clone());
        assert(views(r@) =~= before.push(sorted@[i as int]@));
        i = i + 1;
    }
    let ghost head = views(r@);
    r.push(x.clone());
    assert(views(r@) =~= head + seq![x@] + sv.subrange(i as int, i as int));
    let mut j: usize = i;
    assert(sv.skip(i as int).len() > 0 ==> sv.skip(i as int)[0] == sv[i as int]);
    assert(insert_text(sv.skip(i as int), x@) =~= seq![x@] + sv.skip(i as int));
    while j < sorted.len()
        invariant
            i <= j <= sorted.len(),
            sv == views(sorted@),
            views(r@) == head + seq![x@] + sv.subrange(i as int, j as int),
        decreases sorted.len() - j,
    {
        let ghost before = views(r@);
        r.push(sorted[j].clone());
        assert(views(r@) =~= before.push(sorted@[j as int]@));
        assert(sv.subrange(i as int, j + 1) =~= sv.subrange(i as int, j as int).push(sv[j as int]));
        assert(views(r@) =~= head + seq![x@] + sv.subrange(i as int, j + 1));
        j = j + 1;
    }
    assert(sv.subrange(i as int, j as int) =~= sv.skip(i as int));
    r
}

/// Sorts texts into increasing order (see `sort_texts`).
fn sort_texts_exec(s: &Vec<Vec<char>>) -> (r: Vec<Vec<char>>)
    ensures
        views(r@) == sort_texts(views(s@)),
{
    let ghost sv = views(s@);
    let mut r: Vec<Vec<char>> = Vec::new();
    let mut i: usize = 0;
    assert(sv.take(0) =~= Seq::<Seq<char>>::empty());
    while i < s.len()
        invariant
            i <= s.len(),
            sv == views(s@),
            views(r@) == sort_texts(sv.take(i as int)),
        decreases s.len() - i,
    {
        assert(sv.take(i + 1).drop_last() =~= sv.take(i as int));
        assert(sv.take(i + 1).last() == s@[i as int]@);
        r = insert_text_exec(&r, &s[i]);
        i = i + 1;
    }
    assert(sv.take(i as int) =~= sv);
    r
}

/// Chooses adjectives that tell an entity from the entities that share its name (see
/// `adjective_disambiguation`); the search tries at most `limit` (and at most 63)
/// adjectives.
pub fn try_adjective_disambiguation(
    entity: &TemplateEntity,
    colliders: &Vec<&TemplateEntity>,
    base_name: &str,
    limit: usize,
) -> (r: Option<(String, bool)>)
    ensures
        match r {
            Some((name, still)) => adjective_disambiguation(*entity, entity_refs(colliders@), base_name@, limit as nat) == Some((name@, still)),
            None => adjective_disambiguation(*entity, entity_refs(colliders@), base_name@, limit as nat) is None,
        },
{
    let ghost cs = entity_refs(colliders@);
    let entity_adjs = match entity.adjectives() {
        Some(a) => a,
        None => {
            return None;
        },
    };
    if entity_adjs.len() == 0 {
        return None;
    }
    let safe_limit: usize = if limit < 63 { limit } else { 63 };
    if safe_limit == 0 {
        return None;
    }
    let ghost adjs = string_views(entity_adjs@);
    let cadjs = collider_adjectives(colliders);
    let mut searchable: Vec<Vec<char>> = Vec::new();
    let mut i: usize = 0;
    assert(adjs.skip(0) =~= adjs);
    while i < entity_adjs.len()
        invariant_except_break
            searchable@.len() < safe_limit,
            views(searchable@) + searchable_adjectives(adjs.skip(i as int), cs, (safe_limit - searchable@.len()) as nat)
                == searchable_adjectives(adjs, cs, safe_limit as nat),
        invariant
            i <= entity_adjs.len(),
            adjs == string_views(entity_adjs@),
            cs == entity_refs(colliders@),
            cadjs@.len() == colliders@.len(),
            forall|k: int| 0 <= k < cadjs@.len() ==> match #[trigger] cadjs@[k] {
                Some(a) => adjectives_spec(*colliders@[k]) == Some(string_views(a@)),
                None => adjectives_spec(*colliders@[k]) is None,
            },
            1 <= safe_limit <= 63,
        ensures
            views(searchable@) == searchable_adjectives(adjs, cs, safe_limit as nat),
            searchable@.len() <= 63,
        decreases entity_adjs.len() - i,
    {
        let adj = chars_of(entity_adjs[i].as_str());
        assert(adjs.skip(i as int).drop_first() =~= adjs.skip(i + 1));
        assert(adjs.skip(i as int)[0] == adj@);
        let single = vec![adj];
        assert(views(single@) =~= seq![single@[0]@]);
        let mut shared = true;
        let mut k: usize = 0;
        while k < colliders.len()
            invariant
                k <= colliders.len(),
                cs == entity_refs(colliders@),
                views(single@) == seq![adj@],
                single@.len() == 1,
                cadjs@.len() == colliders@.len(),
                forall|q: int| 0 <= q < cadjs@.len() ==> match #[trigger] cadjs@[q] {
                    Some(a) => adjectives_spec(*colliders@[q]) == Some(string_views(a@)),
                    None => adjectives_spec(*colliders@[q]) is None,
                },
                shared == forall|q: int| 0 <= q < k ==> lists_adjective(#[trigger] cs[q], adj@),
            decreases colliders.len() - k,
        {
            let listed = holds_all(&cadjs[k], &single);
            proof {
                let ck = cadjs@[k as int];
                assert(views(single@)[0] == adj@);
                assert(cs[k as int] == *colliders@[k as int]);
                match ck {
                    Some(a) => {
                        if string_views(a@).contains(adj@) {
                            assert forall|q: int| 0 <= q < single@.len() implies string_views(a@).contains(#[trigger] views(single@)[q]) by {
                                assert(single@.len() == 1);
                            }
                        }
                    },
                    None => {},
                }
            }
            assert(listed == lists_adjective(cs[k as int], adj@));
            if !listed {
                shared = false;
            }
            k = k + 1;
        }
        if !shared {
            let ghost before = views(searchable@);
            searchable.push(single[0].clone());
            assert(views(searchable@) =~= before.push(adj@));
            if searchable.len() == safe_limit {
                assert(searchable_adjectives(adjs.skip(i + 1), cs, 0) =~= Seq::<Seq<char>>::empty());
                assert(views(searchable@) =~= searchable_adjectives(adjs, cs, safe_limit as nat));
                break;
            }
        }
        i = i + 1;
    }

    if searchable.len() == 0 {
        return None;
    }
    let ghost sv = views(searchable@);
    let n = searchable.len();
    let mut total: u64 = 1;
    let mut p: usize = 0;
    proof {
        vstd::arithmetic::power2::lemma2_to64();
    }
    while p < n
        invariant
            p <= n <= 63,
            total == pow2(p as nat),
        decreases n - p,
    {
        proof {
            lemma_pow2_bound(p as nat);
            lemma_pow2_unfold((p + 1) as nat);
        }
        total = total * 2;
        p = p + 1;
    }
    proof {
        lemma_pow2_pos(n as nat);
    }
    let mut best: Option<(u64, usize, Vec<Vec<char>>)> = None;
    let mut mask: u64 = 1;
    while mask < total
        invariant
            1 <= mask,
            total == pow2(n as nat),
            sv == views(searchable@),
            cs == entity_refs(colliders@),
            cadjs@.len() == colliders@.len(),
            forall|k: int| 0 <= k < cadjs@.len() ==> match #[trigger] cadjs@[k] {
                Some(a) => adjectives_spec(*colliders@[k]) == Some(string_views(a@)),
                None => adjectives_spec(*colliders@[k]) is None,
            },
            mask <= total,
            match best {
                Some((b, c, combo)) => best_mask(sv, cs, mask as nat) == Some(b as nat)
                    && c == collider_count(cs, subset_of(sv, b as nat))
                    && views(combo@) == subset_of(sv, b as nat),
                None => best_mask(sv, cs, mask as nat) is None,
            },
        decreases total - mask,
    {
        let subset = subset_exec(&searchable, mask);
        let current = count_colliders(colliders, &cadjs, &subset);
        let ghost prev = best_mask(sv, cs, mask as nat);
        assert(best_mask(sv, cs, (mask + 1) as nat) == {
            let c = collider_count(cs, subset_of(sv, mask as nat));
            match prev {
                None => if c < cs.len() { Some(mask as nat) } else { None },
                Some(b) => {
                    let cb = collider_count(cs, subset_of(sv, b));
                    if c < cb || (c == cb && subset_of(sv, mask as nat).len() < subset_of(sv, b).len()) {
                        Some(mask as nat)
                    } else {
                        Some(b)
                    }
                },
            }
        });
        let replace = match &best {
            None => current < colliders.len(),
            Some((_, c, combo)) => current < *c || (current == *c && subset.len() < combo.len()),
        };
        if replace {
            best = Some((mask, current, subset));
        }
        mask = mask + 1;
    }
    match best {
        Some((b, c, combo)) => {
            let sorted = sort_texts_exec(&combo);
            let mut prefix: Vec<char> = Vec::new();
            let mut j: usize = 0;
            while j < sorted.len()
                invariant
                    j <= sorted.len(),
                    prefix@ == join(views(sorted@).take(j as int), " "@),
                decreases sorted.len() - j,
            {
                if j > 0 {
                    append_str(&mut prefix, " ");
                }
                append_chars(&mut prefix, &sorted[j]);
                proof {
                    let t = views(sorted@).take(j + 1);
                    assert(t.drop_last() =~= views(sorted@).take(j as int));
                    assert(t.last() == sorted@[j as int]@);
                    if j == 0 {
                        assert(views(sorted@).take(0) =~= Seq::<Seq<char>>::empty());
                        assert(prefix@ =~= sorted@[0]@);
                    }
                }
                j = j + 1;
            }
            assert(views(sorted@).take(j as int) =~= views(sorted@));
            append_str(&mut prefix, " ");
            append_str(&mut prefix, base_name);
            Some((string_of(&prefix), c > 0))
        },
        None => None,
    }
}

/// Powers of two up to the 62nd stay within `u64` when doubled.
proof fn lemma_pow2_bound(p: nat)
    requires
        p < 63,
    ensures
        1 <= pow2(p) <= 0x4000_0000_0000_0000,
{
    lemma_pow2_pos(p);
    lemma2_to64_rest();
    if p < 62 {
        lemma_pow2_strictly_increases(p, 62);
    }
}

// ---------------------------------------------------------------------------
// Choosing the name under which an entity is rendered
// ---------------------------------------------------------------------------

/// The remembered entities whose key the context resolves, oldest first.
pub open spec fn recent_candidates(ctx: RenderContext, rs: Seq<RecentModel>) -> Seq<(Seq<char>, TemplateEntity)>
    decreases rs.len(),
{
    if rs.len() == 0 {
        seq![]
    } else {
        let prev = recent_candidates(ctx, rs.drop_last());
        match entity_for(ctx, rs.last().key) {
            Some(e) => prev.push((rs.last().key, e)),
            None => prev,
        }
    }
}

/// The keys still to be rendered that are not remembered and were resolved ahead, in order.
pub open spec fn future_candidates(ctx: RenderContext, future: Seq<Seq<char>>, pre: KeyMap<&TemplateEntity>) -> Seq<(Seq<char>, TemplateEntity)>
    decreases future.len(),
{
    if future.len() == 0 {
        seq![]
    } else {
        let prev = future_candidates(ctx, future.drop_last(), pre);
        let fk = future.last();
        if !recent_keys(recent_views(ctx.recent_entities@)).contains(fk) && pre.map().contains_key(fk) {
            prev.push((fk, *pre.map()[fk]))
        } else {
            prev
        }
    }
}

/// The entities that a name can collide with: the remembered ones, then those to come.
pub open spec fn collision_candidates(ctx: RenderContext, future: Seq<Seq<char>>, pre: KeyMap<&TemplateEntity>) -> Seq<(Seq<char>, TemplateEntity)> {
    recent_candidates(ctx, recent_views(ctx.recent_entities@)) + future_candidates(ctx, future, pre)
}

/// The views of a list of string slices.
pub open spec fn str_views(v: Seq<&str>) -> Seq<Seq<char>> {
    v.map_values(|s: &str| s@)
}

/// Collects the entities that a name can collide with (see `collision_candidates`).
pub fn collect_candidates<'a>(ctx: &RenderContext<'a>, future_keys: &Vec<&str>, pre_resolved: &KeyMap<&'a TemplateEntity>) -> (r: Vec<(String, &'a TemplateEntity)>)
    ensures
        found_views(r@) == collision_candidates(*ctx, str_views(future_keys@), *pre_resolved),
{
    let ghost rs = recent_views(ctx.recent_entities@);
    let mut out: Vec<(String, &'a TemplateEntity)> = Vec::new();
    let mut i: usize = 0;
    assert(rs.take(0) =~= Seq::<RecentModel>::empty());
    while i < ctx.recent_entities.len()
        invariant
            i <= ctx.recent_entities.len(),
            rs == recent_views(ctx.recent_entities@),
            found_views(out@) == recent_candidates(*ctx, rs.take(i as int)),
        decreases ctx.recent_entities.len() - i,
    {
        let r = &ctx.recent_entities[i];
        assert(rs.take(i + 1).drop_last() =~= rs.take(i as int));
        assert(rs.take(i + 1).last() == r@);
        match ctx.get_entity(r.key.as_str()) {
            Some(e) => {
                let ghost before = found_views(out@);
                out.push((r.key.clone(), e));
                assert(found_views(out@) =~= before.push((r@.key, *e)));
            },
            None => {},
        }
        i = i + 1;
    }
    assert(rs.take(i as int) =~= rs);
    let ghost head = found_views(out@);
    let ghost fv = str_views(future_keys@);
    let mut j: usize = 0;
    assert(fv.take(0) =~= Seq::<Seq<char>>::empty());
    assert(head =~= head + future_candidates(*ctx, fv.take(0), *pre_resolved));
    while j < future_keys.len()
        invariant
            j <= future_keys.len(),
            rs == recent_views(ctx.recent_entities@),
            fv == str_views(future_keys@),
            head == recent_candidates(*ctx, rs),
            found_views(out@) == head + future_candidates(*ctx, fv.take(j as int), *pre_resolved),
        decreases future_keys.len() - j,
    {
        let fk = future_keys[j];
        assert(fv.take(j + 1).drop_last() =~= fv.take(j as int));
        assert(fv.take(j + 1).last() == fk@);
        let mut remembered = false;
        let mut k: usize = 0;
        while k < ctx.recent_entities.len()
            invariant
                k <= ctx.recent_entities.len(),
                rs == recent_views(ctx.recent_entities@),
                remembered == exists|q: int| 0 <= q < k && (#[trigger] rs[q]).key == fk@,
            decreases ctx.recent_entities.len() - k,
        {
            if str_eq(ctx.recent_entities[k].key.as_str(), fk) {
                assert(rs[k as int].key == fk@);
                remembered = true;
            }
            k = k + 1;
        }
        proof {
            if remembered {
                let q = choose|q: int| 0 <= q < k && (#[trigger] rs[q]).key == fk@;
                assert(recent_keys(rs)[q] == fk@);
            }
            if recent_keys(rs).contains(fk@) {
                let q = choose|q: int| 0 <= q < recent_keys(rs).len() && recent_keys(rs)[q] == fk@;
                assert(rs[q].key == fk@);
            }
        }
        if !remembered {
            match pre_resolved.get(fk) {
                Some(e) => {
                    let ghost before = found_views(out@);
                    out.push((String::from_str(fk), *e));
                    assert(found_views(out@) =~= before.push((fk@, **e)));
                },
                None => {},
            }
        }
        j = j + 1;
    }
    assert(fv.take(j as int) =~= fv);
    out
}

/// Whether a candidate collides with a long name: it is named the long name, or shares the
/// short name and has the same long name.
pub open spec fn long_collides(c: (Seq<char>, TemplateEntity), skip_key: Seq<char>, viewer: Seq<char>, short_name: Seq<char>, long_name: Seq<char>) -> bool {
    c.0 != skip_key && (name_spec(c.1, viewer) == long_name || (name_spec(c.1, viewer) == short_name && long_name_spec(c.1) == Some(long_name)))
}

/// How many candidates (other than `skip_key`) collide with a long name.
pub open spec fn long_collision_count(cands: Seq<(Seq<char>, TemplateEntity)>, skip_key: Seq<char>, viewer: Seq<char>, short_name: Seq<char>, long_name: Seq<char>) -> nat {
    cands.filter(|c: (Seq<char>, TemplateEntity)| long_collides(c, skip_key, viewer, short_name, long_name)).len()
}

/// The candidates (other than `skip_key`) that are named `name`.
pub open spec fn named_alike(cands: Seq<(Seq<char>, TemplateEntity)>, skip_key: Seq<char>, viewer: Seq<char>, name: Seq<char>) -> Seq<(Seq<char>, TemplateEntity)> {
    cands.filter(|c: (Seq<char>, TemplateEntity)| c.0 != skip_key && name_spec(c.1, viewer) == name)
}

/// Counts the candidates (other than `params_key`) that collide with a long name.
pub fn count_long_name_collisions(cands: &Vec<(String, &TemplateEntity)>, effective_viewer: &str, params_key: &str, short_name: &Vec<char>, long_name: &Vec<char>) -> (r: usize)
    ensures
        r == long_collision_count(found_views(cands@), params_key@, effective_viewer@, short_name@, long_name@),
{
    let ghost cv = found_views(cands@);
    let ghost p = |c: (Seq<char>, TemplateEntity)| long_collides(c, params_key@, effective_viewer@, short_name@, long_name@);
    let mut n: usize = 0;
    let mut i: usize = 0;
    assert(cv.take(0).filter(p) =~= Seq::<(Seq<char>, TemplateEntity)>::empty());
    while i < cands.len()
        invariant
            i <= cands.len(),
            cv == found_views(cands@),
            p == (|c: (Seq<char>, TemplateEntity)| long_collides(c, params_key@, effective_viewer@, short_name@, long_name@)),
            n == cv.take(i as int).filter(p).len(),
            n <= i,
        decreases cands.len() - i,
    {
        let (k, e) = (&cands[i].0, cands[i].1);
        assert(cv.take(i + 1).drop_last() =~= cv.take(i as int));
        assert(cv.take(i + 1).last() == (k@, *e));
        reveal_with_fuel(Seq::<_>::filter, 1);
        if !str_eq(k.as_str(), params_key) {
            let other_short = chars_of(e.display_name_for(effective_viewer).as_str());
            let collides = if chars_eq(&other_short, long_name) {
                true
            } else if chars_eq(&other_short, short_name) {
                match e.long_display_name_for(effective_viewer) {
                    Some(l) => chars_eq(&chars_of(l.as_str()), long_name),
                    None => false,
                }
            } else {
                false
            };
            if collides {
                n = n + 1;
            }
        }
        i = i + 1;
    }
    assert(cv.take(i as int) =~= cv);
    n
}

/// Whether a colliding entity will leave the short name to others by using its own long
/// name: it has a long name that differs from `name`, and that long name collides with
/// fewer candidates than its short name does.
pub open spec fn will_vacate(cands: Seq<(Seq<char>, TemplateEntity)>, viewer: Seq<char>, other_key: Seq<char>, other: TemplateEntity, name: Seq<char>, other_name: Seq<char>) -> bool {
    match long_name_spec(other) {
        Some(other_long) => other_long != name && long_collision_count(cands, other_key, viewer, name, other_long)
            < named_alike(cands, other_key, viewer, other_name).len(),
        None => false,
    }
}

/// How many candidates (other than `skip_key`) are named `name`.
fn count_named_alike(cands: &Vec<(String, &TemplateEntity)>, viewer: &str, skip_key: &str, name: &Vec<char>) -> (r: usize)
    ensures
        r == named_alike(found_views(cands@), skip_key@, viewer@, name@).len(),
{
    let ghost cv = found_views(cands@);
    let ghost p = |c: (Seq<char>, TemplateEntity)| c.0 != skip_key@ && name_spec(c.1, viewer@) == name@;
    let mut n: usize = 0;
    let mut i: usize = 0;
    assert(cv.take(0).filter(p) =~= Seq::<(Seq<char>, TemplateEntity)>::empty());
    while i < cands.len()
        invariant
            i <= cands.len(),
            cv == found_views(cands@),
            p == (|c: (Seq<char>, TemplateEntity)| c.0 != skip_key@ && name_spec(c.1, viewer@) == name@),
            n == cv.take(i as int).filter(p).len(),
            n <= i,
        decreases cands.len() - i,
    {
        let (k, e) = (&cands[i].0, cands[i].1);
        assert(cv.take(i + 1).drop_last() =~= cv.take(i as int));
        assert(cv.take(i + 1).last() == (k@, *e));
        reveal_with_fuel(Seq::<_>::filter, 1);
        if !str_eq(k.as_str(), skip_key) && chars_eq(&chars_of(e.display_name_for(viewer).as_str()), name) {
            n = n + 1;
        }
        i = i + 1;
    }
    assert(cv.take(i as int) =~= cv);
    n
}

/// Whether a colliding entity will leave the short name to others (see `will_vacate`).
pub fn check_will_vacate(cands: &Vec<(String, &TemplateEntity)>, effective_viewer: &str, other_key: &str, other_entity: &TemplateEntity, name: &Vec<char>, other_name: &Vec<char>) -> (r: bool)
    ensures
        r == will_vacate(found_views(cands@), effective_viewer@, other_key@, *other_entity, name@, other_name@),
{
    match other_entity.long_display_name_for(effective_viewer) {
        Some(other_long) => {
            let ol = chars_of(other_long.as_str());
            if chars_eq(&ol, name) {
                return false;
            }
            let short_collisions = count_named_alike(cands, effective_viewer, other_key, other_name);
            let long_collisions = count_long_name_collisions(cands, effective_viewer, other_key, name, &ol);
            long_collisions < short_collisions
        },
        None => false,
    }
}


/// The colliders among `prefix` (candidates named `name`, other than `key`) that will not
/// leave the name to others, in order.
pub open spec fn unresolved_among(cands: Seq<(Seq<char>, TemplateEntity)>, prefix: Seq<(Seq<char>, TemplateEntity)>, key: Seq<char>, viewer: Seq<char>, name: Seq<char>) -> Seq<TemplateEntity>
    decreases prefix.len(),
{
    if prefix.len() == 0 {
        seq![]
    } else {
        let prev = unresolved_among(cands, prefix.drop_last(), key, viewer, name);
        let c = prefix.last();
        if c.0 != key && name_spec(c.1, viewer) == name && !will_vacate(cands, viewer, c.0, c.1, name, name) {
            prev.push(c.1)
        } else {
            prev
        }
    }
}

/// The name under which an entity is rendered when smart naming is on, and whether it
/// still collides with another entity's name. The short name is kept unless it collides
/// and the long name collides with fewer candidates; a name that still collides, of an
/// entity that is not a proper noun, is told apart by adjectives where they can do it.
pub open spec fn display_choice(cands: Seq<(Seq<char>, TemplateEntity)>, e: TemplateEntity, key: Seq<char>, viewer: Seq<char>, limit: nat) -> (Seq<char>, bool) {
    let name = name_spec(e, viewer);
    let shorts = named_alike(cands, key, viewer, name).len();
    let unresolved = unresolved_among(cands, cands, key, viewer, name);
    let chosen: (Seq<char>, bool) = match long_name_spec(e) {
        Some(l) => if shorts > 0 && l != name && long_collision_count(cands, key, viewer, name, l) < shorts {
            (l, long_collision_count(cands, key, viewer, name, l) > 0)
        } else {
            (name, unresolved.len() > 0)
        },
        None => (name, unresolved.len() > 0),
    };
    if chosen.1 && !proper_spec(e, viewer) {
        match adjective_disambiguation(e, unresolved, chosen.0, limit) {
            Some(p) => p,
            None => chosen,
        }
    } else {
        chosen
    }
}

/// The views of an optional string slice.
pub open spec fn opt_str_view(o: Option<&str>) -> Option<Seq<char>> {
    match o {
        Some(s) => Some(s@),
        None => None,
    }
}

/// The name of the ordinal record for an entity: the name inside the namespace of its
/// owner, or of the part of its key before the last property separator, if either exists.
pub open spec fn ordinal_group(owner: Option<Seq<char>>, key: Seq<char>, name: Seq<char>) -> Seq<char> {
    match owner {
        Some(o) => o + seq![':', ':'] + name,
        None => match last_char_index(key, TAG_PROPERTY_SEP) {
            Some(i) => key.take(i) + seq![':', ':'] + name,
            None => name,
        },
    }
}

/// Chooses the name under which an entity is rendered and assigns its ordinal. Without
/// smart naming the entity's own name is used, nothing is assigned and the context is left
/// as it was; otherwise the name is `display_choice` over the collision candidates, and the
/// ordinal is assigned under `ordinal_group`.
pub fn resolve_display_name<'a>(
    ctx: &mut RenderContext<'a>,
    entity: &TemplateEntity,
    params: &EntityRefParams,
    effective_viewer: &str,
    future_keys: &Vec<&str>,
    pre_resolved: &KeyMap<&'a TemplateEntity>,
) -> (r: (String, Option<usize>))
    requires
        forall|k: int| 0 <= k < old(ctx).ordinals@.len() ==> (#[trigger] old(ctx).ordinals@[k]).1.next_ordinal < usize::MAX,
    ensures
        params.flags.no_smart ==> r.0@ == name_spec(*entity, effective_viewer@) && r.1 is None && *final(ctx) == *old(ctx),
        !params.flags.no_smart ==> {
            &&& r.0@ == display_choice(collision_candidates(*old(ctx), str_views(future_keys@), *pre_resolved), *entity, params.key@, effective_viewer@, old(ctx).adjective_disambiguation_limit as nat).0
            &&& (ordinals_model(final(ctx).ordinals@), r.1) == ordinal_assignment(
                ordinals_model(old(ctx).ordinals@),
                ordinal_group(opt_str_view(params.owner_key), params.key@, r.0@),
                params.key@,
                display_choice(collision_candidates(*old(ctx), str_views(future_keys@), *pre_resolved), *entity, params.key@, effective_viewer@, old(ctx).adjective_disambiguation_limit as nat).1,
            )
            &&& history_view(final(ctx).ordinal_history@) == history_view(old(ctx).ordinal_history@).push((params.key@, held_ordinal(r.1)))
            &&& same_setup(*final(ctx), *old(ctx))
            &&& final(ctx).recent_entities == old(ctx).recent_entities
            &&& final(ctx).last_mentioned == old(ctx).last_mentioned
            &&& final(ctx).active_subject == old(ctx).active_subject
        },
{
    let own = entity.display_name_for(effective_viewer);
    if params.flags.no_smart {
        return (own, None);
    }
    let cands = collect_candidates(&*ctx, future_keys, pre_resolved);
    let ghost cv = found_views(cands@);
    let ghost viewer = effective_viewer@;
    let ghost key = params.key@;
    let short = chars_of(own.as_str());
    let shorts = count_named_alike(&cands, effective_viewer, params.key, &short);
    let mut unresolved: Vec<&TemplateEntity> = Vec::new();
    let mut i: usize = 0;
    assert(cv.take(0) =~= Seq::<(Seq<char>, TemplateEntity)>::empty());
    while i < cands.len()
        invariant
            i <= cands.len(),
            cv == found_views(cands@),
            short@ == name_spec(*entity, viewer),
            viewer == effective_viewer@,
            key == params.key@,
            entity_refs(unresolved@) == unresolved_among(cv, cv.take(i as int), key, viewer, short@),
        decreases cands.len() - i,
    {
        let (k, e) = (&cands[i].0, cands[i].1);
        assert(cv.take(i + 1).drop_last() =~= cv.take(i as int));
        assert(cv.take(i + 1).last() == (k@, *e));
        if !str_eq(k.as_str(), params.key) && chars_eq(&chars_of(e.display_name_for(effective_viewer).as_str()), &short) {
            if !check_will_vacate(&cands, effective_viewer, k.as_str(), e, &short, &short) {
                let ghost before = entity_refs(unresolved@);
                unresolved.push(e);
                assert(entity_refs(unresolved@) =~= before.push(*e));
            }
        }
        i = i + 1;
    }
    assert(cv.take(i as int) =~= cv);
    let mut name = short.clone();
    let mut collision = unresolved.len() > 0;
    if shorts > 0 {
        match entity.long_display_name_for(effective_viewer) {
            Some(l) => {
                let lc = chars_of(l.as_str());
                if !chars_eq(&lc, &short) {
                    let longs = count_long_name_collisions(&cands, effective_viewer, params.key, &short, &lc);
                    if longs < shorts {
                        name = lc;
                        collision = longs > 0;
                    }
                }
            },
            None => {},
        }
    }
    if collision && !entity.is_proper_noun_for(effective_viewer) {
        let base = string_of(&name);
        match try_adjective_disambiguation(entity, &unresolved, base.as_str(), ctx.adjective_disambiguation_limit) {
            Some((n, still)) => {
                name = chars_of(n.as_str());
                collision = still;
            },
            None => {},
        }
    }
    assert((name@, collision) == display_choice(cv, *entity, key, viewer, ctx.adjective_disambiguation_limit as nat));
    let mut group: Vec<char> = Vec::new();
    match params.owner_key {
        Some(o) => {
            group = chars_of(o);
            group.push(':');
            group.push(':');
            append_chars(&mut group, &name);
        },
        None => {
            let kc = chars_of(params.key);
            match rfind_char(&kc, TAG_PROPERTY_SEP) {
                Some(p) => {
                    group = subrange_of(&kc, 0, p);
                    group.push(':');
                    group.push(':');
                    append_chars(&mut group, &name);
                },
                None => {
                    group = name.clone();
                },
            }
        },
    }
    assert(group@ =~= ordinal_group(opt_str_view(params.owner_key), key, name@));
    let name_text = string_of(&name);
    let ordinal = assign_ordinal(ctx, string_of(&group).as_str(), params.key, collision);
    (name_text, ordinal)
}

} // verus!
