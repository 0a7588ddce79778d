//! Rendering a whole entity reference: the pronoun step and then the name, and the narrative
//! possessive ("the goblin's rusty sword"), where the owner is rendered before its target.
use vstd::prelude::*;
use crate::engine::{
    effective_viewer_id, ordinal_assignment, ordinal_group, opt_str_view, resolve_pre, resolved_entity,
    str_views, EntityRefParams, PerspectiveEngine,
};
use crate::keymap::KeyMap;
use crate::context::direct_entity;
use crate::models::{ordinals_model, property_spec, proper_spec, ActorStance, RenderContext, TemplateEntity, NULL_VIEWER};
use crate::parser::{no_flags, TagFlags};
use crate::pronouns::{pronoun_step, PronounResult};
use crate::render::{apply_all_caps, caps_text, display_result, resolved_step};
use crate::text::{
    append_chars, append_str, chars_find_from, chars_of, find, find_key, lemma_find_bounds, split_chars, split_on,
    string_of, subrange_of, views,
};

verus! {

// ---------------------------------------------------------------------------
// Ordinal counters
// ---------------------------------------------------------------------------

/// Every ordinal counter of the context is below `b`.
pub open spec fn ordinals_below(ctx: RenderContext, b: int) -> bool {
    forall|k: int| 0 <= k < ctx.ordinals@.len() ==> (#[trigger] ctx.ordinals@[k]).1.next_ordinal < b
}

/// Naming an entity advances an ordinal counter by one at most.
proof fn lemma_assignment_bound(
    ms: Seq<(Seq<char>, usize, Seq<(Seq<char>, usize)>)>,
    name: Seq<char>,
    key: Seq<char>,
    collision: bool,
    b: int,
)
    requires
        3 <= b <= usize::MAX,
        forall|k: int| 0 <= k < ms.len() ==> (#[trigger] ms[k]).1 + 1 < b,
    ensures
        forall|k: int| 0 <= k < ordinal_assignment(ms, name, key, collision).0.len() ==> (#[trigger] ordinal_assignment(ms, name, key, collision).0[k]).1 < b,
{
    let ms1 = match crate::text::first_index(crate::engine::ordinal_names(ms), name) {
        Some(_) => ms,
        None => ms.push((name, 1usize, seq![])),
    };
    assert forall|k: int| 0 <= k < ms1.len() implies (#[trigger] ms1[k]).1 + 1 < b by {
        if k < ms.len() {
            assert(ms[k].1 + 1 < b);
        }
    }
    let res = ordinal_assignment(ms, name, key, collision);
    crate::text::lemma_first_index_valid(crate::engine::ordinal_names(ms1), name);
    match crate::text::first_index(crate::engine::ordinal_names(ms1), name) {
        Some(i) => {
            let st = ms1[i];
            if collision {
                match crate::text::first_index(crate::engine::member_keys(st.2), key) {
                    Some(j) => {
                        assert(res.0 == ms1);
                    },
                    None => {
                        assert(st.1 + 1 < b);
                        assert(res.0 == ms1.update(i, (st.0, (st.1 + 1) as usize, st.2.push((key, st.1)))));
                    },
                }
            } else {
                assert(res.0 == ms1.update(i, (st.0, 2usize, seq![(key, 1usize)])));
            }
        },
        None => {
            assert(res.0 == ms1);
        },
    }
}

/// Rendering a resolved entity advances each ordinal counter by one at most.
proof fn lemma_resolved_bound<'a>(
    ctx0: RenderContext,
    ctx1: RenderContext,
    out0: Seq<char>,
    out1: Seq<char>,
    params: EntityRefParams<'a>,
    e: TemplateEntity,
    viewer: Seq<char>,
    article: Option<&'a str>,
    p_type: Option<&'a str>,
    flags: TagFlags,
    after_possessive: bool,
    future: Seq<Seq<char>>,
    pre: KeyMap<&TemplateEntity>,
)
    requires
        resolved_step(ctx0, ctx1, out0, out1, params, e, viewer, article, p_type, flags, after_possessive, future, pre),
        ordinals_below(ctx0, usize::MAX - 1),
    ensures
        ordinals_below(ctx1, usize::MAX as int),
{
    reveal(resolved_step);
    let m0 = ordinals_model(ctx0.ordinals@);
    let m1 = ordinals_model(ctx1.ordinals@);
    assert(m1 == display_result(ctx0, e, params, viewer, future, pre).2);
    assert forall|k: int| 0 <= k < m0.len() implies (#[trigger] m0[k]).1 + 1 < usize::MAX by {
        assert(m0[k].1 == ctx0.ordinals@[k].1.next_ordinal);
    }
    if !params.flags.no_smart {
        let dc = crate::engine::display_choice(
            crate::engine::collision_candidates(ctx0, future, pre),
            e,
            params.key@,
            viewer,
            ctx0.adjective_disambiguation_limit as nat,
        );
        lemma_assignment_bound(m0, ordinal_group(opt_str_view(params.owner_key), params.key@, dc.0), params.key@, dc.1, usize::MAX as int);
    }
    assert forall|k: int| 0 <= k < ctx1.ordinals@.len() implies (#[trigger] ctx1.ordinals@[k]).1.next_ordinal < usize::MAX by {
        assert(m1[k].1 == ctx1.ordinals@[k].1.next_ordinal);
    }
}

// ---------------------------------------------------------------------------
// The target of a reference
// ---------------------------------------------------------------------------

/// What follows the pronoun step: nothing more when the pronoun was written or failed,
/// else the name, rendered with the article, pronoun type and flags that the step handed on.
pub open spec fn after_pronoun<'a>(
    ctx1: RenderContext,
    ctx2: RenderContext,
    out1: Seq<char>,
    out2: Seq<char>,
    params: EntityRefParams<'a>,
    e: TemplateEntity,
    viewer: Seq<char>,
    after_possessive: bool,
    future: Seq<Seq<char>>,
    pre: KeyMap<&TemplateEntity>,
    pr: Result<PronounResult<'a>, String>,
    r: Result<(), String>,
) -> bool {
    match pr {
        Err(m) => r == Err::<(), String>(m) && ctx2 == ctx1 && out2 == out1,
        Ok(PronounResult::Rendered) => r is Ok && ctx2 == ctx1 && out2 == out1,
        Ok(PronounResult::Fallback { article_to_use, active_flags, actual_p_type }) => {
            &&& r is Ok
            &&& resolved_step(ctx1, ctx2, out1, out2, params, e, viewer, article_to_use, actual_p_type, active_flags, after_possessive, future, pre)
        },
    }
}

/// What rendering the target of a reference does: the pronoun step (`pronoun_step`), and
/// then, unless a pronoun was written or the step failed, the name (`resolved_step`).
#[verifier::opaque]
pub open spec fn target_step<'a>(
    ctx0: RenderContext,
    ctx2: RenderContext,
    out0: Seq<char>,
    out2: Seq<char>,
    params: EntityRefParams<'a>,
    e: TemplateEntity,
    viewer: Seq<char>,
    after_possessive: bool,
    future: Seq<Seq<char>>,
    pre: KeyMap<&TemplateEntity>,
    r: Result<(), String>,
) -> bool {
    exists|ctx1: RenderContext, out1: Seq<char>, pr: Result<PronounResult<'a>, String>|
        #[trigger] pronoun_step(ctx0, ctx1, out0, out1, params, e, viewer, pre, pr)
            && after_pronoun(ctx1, ctx2, out1, out2, params, e, viewer, after_possessive, future, pre, pr, r)
}

impl PerspectiveEngine {
    /// Renders the target of a reference: a pronoun where one may stand, else its name
    /// (see `target_step`).
    pub fn render_target_entity<'a, 'c>(
        ctx: &mut RenderContext<'c>,
        raw_output: &mut String,
        params: &EntityRefParams<'a>,
        entity: &TemplateEntity,
        effective_viewer: &str,
        after_possessive: bool,
        future_keys: &Vec<&str>,
        pre_resolved: &KeyMap<&'c TemplateEntity>,
    ) -> (r: Result<(), String>)
        requires
            ordinals_below(*old(ctx), usize::MAX as int),
        ensures
            target_step(*old(ctx), *final(ctx), old(raw_output)@, final(raw_output)@, *params, *entity, effective_viewer@, after_possessive, str_views(future_keys@), *pre_resolved, r),
            ordinals_below(*old(ctx), usize::MAX - 1) ==> ordinals_below(*final(ctx), usize::MAX as int),
    {
        let ghost ctx0 = *ctx;
        let ghost out0 = raw_output@;
        let pr = PerspectiveEngine::try_render_pronoun(ctx, raw_output, params, entity, effective_viewer, pre_resolved);
        let ghost ctx1 = *ctx;
        let ghost out1 = raw_output@;
        let ghost prg = pr;
        let r = match pr {
            Err(m) => Err(m),
            Ok(PronounResult::Rendered) => Ok(()),
            Ok(PronounResult::Fallback { article_to_use, active_flags, actual_p_type }) => {
                PerspectiveEngine::render_resolved_entity(
                    ctx,
                    raw_output,
                    params,
                    entity,
                    effective_viewer,
                    article_to_use,
                    actual_p_type,
                    active_flags,
                    after_possessive,
                    future_keys,
                    pre_resolved,
                );
                proof {
                    if ordinals_below(ctx0, usize::MAX - 1) {
                        lemma_resolved_bound(ctx1, *ctx, out1, raw_output@, *params, *entity, effective_viewer@, article_to_use, actual_p_type, active_flags, after_possessive, str_views(future_keys@), *pre_resolved);
                    }
                }
                Ok(())
            },
        };
        proof {
            assert(after_pronoun(ctx1, *ctx, out1, raw_output@, *params, *entity, effective_viewer@, after_possessive, str_views(future_keys@), *pre_resolved, prg, r));
            reveal(target_step);
        }
        r
    }
}


// ---------------------------------------------------------------------------
// Narrative possessives
// ---------------------------------------------------------------------------

/// The error for a key that names no entity.
pub open spec fn missing_entity(key: Seq<char>) -> Seq<char> {
    "Missing entity for key: "@ + key
}

/// Builds the error for a key that names no entity.
pub(crate) fn missing_entity_message(key: &str) -> (r: String)
    ensures
        r@ == missing_entity(key@),
{
    let mut msg = chars_of("Missing entity for key: ");
    append_str(&mut msg, key);
    string_of(&msg)
}

/// The error for a property missing along a path: the property and the path walked so far.
pub open spec fn missing_property(prop: Seq<char>, path: Seq<char>) -> Seq<char> {
    "Missing property '"@ + prop + "' on entity '"@ + path + "'"@
}

/// The error met when following the properties `segs` from `e`, whose path so far is `path`:
/// the first property that is missing, named with the path walked up to it.
pub open spec fn path_error(e: TemplateEntity, segs: Seq<Seq<char>>, path: Seq<char>) -> Seq<char>
    decreases segs.len(),
{
    if segs.len() == 0 {
        seq![]
    } else {
        match property_spec(e, segs[0]) {
            None => missing_property(segs[0], path),
            Some(n) => path_error(n, segs.drop_first(), path + "."@ + segs[0]),
        }
    }
}

/// The error for a key that names nothing in the context: a "root.path" key whose root is an
/// entity names the first missing property and the path walked up to it; any other key is a
/// missing entity.
pub open spec fn lookup_error(ctx: RenderContext, key: Seq<char>) -> Seq<char> {
    match find(key, seq!['.']) {
        Some(i) => match direct_entity(ctx, key.take(i)) {
            Some(root) => path_error(root, split_on(key.skip(i + 1), '.'), key.take(i)),
            None => missing_entity(key),
        },
        None => missing_entity(key),
    }
}

/// Builds the error for a key that names nothing in the context (see `lookup_error`).
pub(crate) fn lookup_error_message(ctx: &RenderContext, key: &str) -> (r: String)
    ensures
        r@ == lookup_error(*ctx, key@),
{
    let kv = chars_of(key);
    let dot = vec!['.'];
    assert(dot@ =~= seq!['.']);
    let i = match chars_find_from(&kv, &dot, 0) {
        Some(i) => i,
        None => {
            return missing_entity_message(key);
        },
    };
    proof {
        lemma_find_bounds(kv@, dot@, 0);
        reveal_strlit(".");
    }
    assert(i + 1 <= kv.len());
    let root_key = subrange_of(&kv, 0, i);
    assert(root_key@ =~= key@.take(i as int));
    let root = match find_key(&ctx.entities, string_of(&root_key).as_str()) {
        Some(j) => ctx.entities[j].1,
        None => {
            return missing_entity_message(key);
        },
    };
    let rest = subrange_of(&kv, i + 1, kv.len());
    assert(rest@ =~= key@.skip(i + 1));
    let segs = split_chars(&rest, '.');
    let ghost all = views(segs@);
    let mut cur: &TemplateEntity = root;
    let mut path = root_key;
    let mut k: usize = 0;
    assert(all.skip(0) =~= all);
    while k < segs.len()
        invariant
            k <= segs.len(),
            all == views(segs@),
            lookup_error(*ctx, key@) == path_error(*cur, all.skip(k as int), path@),
        decreases segs.len() - k,
    {
        let ghost rest_segs = all.skip(k as int);
        assert(rest_segs[0] == segs@[k as int]@);
        assert(rest_segs.drop_first() =~= all.skip(k + 1));
        let name = string_of(&segs[k]);
        match cur.get_property(name.as_str()) {
            Some(next) => {
                let ghost p0 = path@;
                proof {
                    reveal_strlit(".");
                }
                path.push('.');
                append_chars(&mut path, &segs[k]);
                assert(path@ =~= p0 + "."@ + segs@[k as int]@);
                cur = next;
            },
            None => {
                let mut m = chars_of("Missing property '");
                append_chars(&mut m, &segs[k]);
                append_str(&mut m, "' on entity '");
                append_chars(&mut m, &path);
                append_str(&mut m, "'");
                return string_of(&m);
            },
        }
        k = k + 1;
    }
    String::new()
}

/// Looks a template key up in the context: the entity it is mapped to, else the entity
/// reached from its root by dot notation ("source.weapon"); when it names nothing, the
/// error says why (see `lookup_error`).
pub fn get_entity<'c>(ctx: &RenderContext<'c>, key: &str) -> (r: Result<&'c TemplateEntity, String>)
    ensures
        match r {
            Ok(e) => crate::context::entity_for(*ctx, key@) == Some(*e),
            Err(m) => crate::context::entity_for(*ctx, key@) is None && m@ == lookup_error(*ctx, key@),
        },
{
    match ctx.get_entity(key) {
        Some(e) => Ok(e),
        None => Err(lookup_error_message(ctx, key)),
    }
}

/// The entity that a key names (see `resolved_entity`), kept folded where it is not needed.
#[verifier::opaque]
pub open spec fn named_entity(ctx: RenderContext, pre: KeyMap<&TemplateEntity>, key: Seq<char>) -> Option<TemplateEntity> {
    resolved_entity(ctx, pre, key)
}

/// Looks a key up ahead of rendering or in the context (see `named_entity`).
pub(crate) fn find_entity<'c>(ctx: &RenderContext<'c>, pre: &KeyMap<&'c TemplateEntity>, key: &str) -> (r: Option<&'c TemplateEntity>)
    ensures
        match r {
            Some(e) => named_entity(*ctx, *pre, key@) == Some(*e),
            None => named_entity(*ctx, *pre, key@) is None,
        },
{
    proof {
        reveal(named_entity);
    }
    resolve_pre(ctx, pre, key)
}

/// The viewer under which the owner of a narrative possessive is named.
pub open spec fn owner_viewer(ctx: RenderContext, params: EntityRefParams) -> Seq<char> {
    if params.owner_flags.force_3rd_person || ctx.stance == ActorStance::ThirdPerson {
        NULL_VIEWER@
    } else {
        ctx.viewer_id@
    }
}

/// The flags of the owner: its own, in capitals when the tag is, with the tag's article
/// options carried over (a capitalised article capitalises the owner's pronoun).
pub open spec fn owner_flags_of(params: EntityRefParams) -> TagFlags {
    TagFlags {
        all_caps: params.flags.all_caps,
        pronoun_capitalized: params.owner_flags.pronoun_capitalized || params.flags.article_capitalized,
        force_article: params.owner_flags.force_article || params.flags.force_article,
        article_indefinite: params.owner_flags.article_indefinite || params.flags.article_indefinite,
        ..params.owner_flags
    }
}

/// The reference to the owner: its key, the tag's article, the possessive pronoun type and
/// the owner's flags.
pub open spec fn owner_params<'a>(params: EntityRefParams<'a>, owner_key: &'a str) -> EntityRefParams<'a> {
    EntityRefParams {
        key: owner_key,
        article: params.article,
        p_type: Some("poss"),
        owner_key: None,
        owner_flags: no_flags(),
        adjectives: None,
        flags: owner_flags_of(params),
        ordinal: None,
    }
}

/// The adjectives written between the owner and the target (in capitals for a tag in
/// capitals), with a trailing space.
pub open spec fn owner_adjectives(params: EntityRefParams) -> Seq<char> {
    match params.adjectives {
        Some(a) => if a@.len() > 0 {
            (if params.flags.all_caps { caps_text(a@) } else { a@ }) + " "@
        } else {
            seq![]
        },
        None => seq![],
    }
}

/// What rendering the owner does: a key that names no entity is an error (see `lookup_error`); otherwise the
/// owner is rendered as the target of a possessive reference, followed by a space and the
/// adjectives of the tag.
#[verifier::opaque]
pub open spec fn owner_step<'a>(
    ctx0: RenderContext,
    ctx2: RenderContext,
    out0: Seq<char>,
    out2: Seq<char>,
    params: EntityRefParams<'a>,
    owner_key: &'a str,
    future: Seq<Seq<char>>,
    pre: KeyMap<&TemplateEntity>,
    r: Result<(), String>,
) -> bool {
    match resolved_entity(ctx0, pre, owner_key@) {
        None => r matches Err(m) && m@ == lookup_error(ctx0, owner_key@) && ctx2 == ctx0 && out2 == out0,
        Some(oe) => exists|out1: Seq<char>, r1: Result<(), String>|
            #[trigger] target_step(ctx0, ctx2, out0, out1, owner_params(params, owner_key), oe, owner_viewer(ctx0, params), false, future, pre, r1)
                && match r1 {
                    Err(m) => r == Err::<(), String>(m) && out2 == out1,
                    Ok(_) => r is Ok && out2 == out1 + " "@ + owner_adjectives(params),
                },
    }
}

impl PerspectiveEngine {
    /// Renders the owner of a narrative possessive and the adjectives after it (see
    /// `owner_step`).
    #[verifier::rlimit(60)]
    pub fn render_narrative_owner<'a, 'c>(
        ctx: &mut RenderContext<'c>,
        raw_output: &mut String,
        params: &EntityRefParams<'a>,
        owner_key: &'a str,
        future_keys: &Vec<&str>,
        pre_resolved: &KeyMap<&'c TemplateEntity>,
    ) -> (r: Result<(), String>)
        requires
            ordinals_below(*old(ctx), usize::MAX as int),
        ensures
            owner_step(*old(ctx), *final(ctx), old(raw_output)@, final(raw_output)@, *params, owner_key, str_views(future_keys@), *pre_resolved, r),
            ordinals_below(*old(ctx), usize::MAX - 1) ==> ordinals_below(*final(ctx), usize::MAX as int),
    {
        let ghost ctx0 = *ctx;
        let ghost out0 = raw_output@;
        let owner_entity = match find_entity(ctx, pre_resolved, owner_key) {
            Some(e) => e,
            None => {
                let r = Err(lookup_error_message(ctx, owner_key));
                proof {
                    lemma_owner_missing(ctx0, out0, *params, owner_key, str_views(future_keys@), *pre_resolved, r);
                }
                return r;
            },
        };
        let o_viewer = effective_viewer_id(ctx, params.owner_flags.force_3rd_person);
        let o_flags = TagFlags {
            all_caps: params.flags.all_caps,
            pronoun_capitalized: params.owner_flags.pronoun_capitalized || params.flags.article_capitalized,
            force_article: params.owner_flags.force_article || params.flags.force_article,
            article_indefinite: params.owner_flags.article_indefinite || params.flags.article_indefinite,
            ..params.owner_flags
        };
        let o_params = EntityRefParams {
            key: owner_key,
            article: params.article,
            p_type: Some("poss"),
            owner_key: None,
            owner_flags: TagFlags::empty(),
            adjectives: None,
            flags: o_flags,
            ordinal: None,
        };
        assert(o_params == owner_params(*params, owner_key));
        assert(o_viewer@ == owner_viewer(ctx0, *params));
        let r1 = PerspectiveEngine::render_target_entity(ctx, raw_output, &o_params, owner_entity, o_viewer, false, future_keys, pre_resolved);
        let ghost out1 = raw_output@;
        let ghost r1g = r1;
        match r1 {
            Err(m) => {
                let r = Err(m);
                proof {
                    lemma_owner_rendered(ctx0, *ctx, out0, out1, raw_output@, *params, owner_key, str_views(future_keys@), *pre_resolved, *owner_entity, r1g, r);
                }
                return r;
            },
            Ok(()) => {},
        }
        let mut all = chars_of(raw_output.as_str());
        all.push(' ');
        match params.adjectives {
            Some(adj) => {
                if adj.unicode_len() > 0 {
                    if params.flags.all_caps {
                        let mut caps = String::new();
                        apply_all_caps(adj, &mut caps);
                        append_str(&mut all, caps.as_str());
                    } else {
                        append_str(&mut all, adj);
                    }
                    all.push(' ');
                }
            },
            None => {},
        }
        assert(all@ =~= out1 + " "@ + owner_adjectives(*params)) by {
            reveal_strlit(" ");
        }
        *raw_output = string_of(&all);
        let r = Ok(());
        proof {
            lemma_owner_rendered(ctx0, *ctx, out0, out1, raw_output@, *params, owner_key, str_views(future_keys@), *pre_resolved, *owner_entity, r1g, r);
        }
        r
    }
}

/// `owner_step` for an owner key that names no entity.
proof fn lemma_owner_missing<'a>(
    ctx0: RenderContext,
    out0: Seq<char>,
    params: EntityRefParams<'a>,
    owner_key: &'a str,
    future: Seq<Seq<char>>,
    pre: KeyMap<&TemplateEntity>,
    r: Result<(), String>,
)
    requires
        named_entity(ctx0, pre, owner_key@) is None,
        r matches Err(m) && m@ == lookup_error(ctx0, owner_key@),
    ensures
        owner_step(ctx0, ctx0, out0, out0, params, owner_key, future, pre, r),
{
    reveal(owner_step);
    reveal(named_entity);
}

/// `owner_step` for an owner that was rendered.
proof fn lemma_owner_rendered<'a>(
    ctx0: RenderContext,
    ctx2: RenderContext,
    out0: Seq<char>,
    out1: Seq<char>,
    out2: Seq<char>,
    params: EntityRefParams<'a>,
    owner_key: &'a str,
    future: Seq<Seq<char>>,
    pre: KeyMap<&TemplateEntity>,
    oe: TemplateEntity,
    r1: Result<(), String>,
    r: Result<(), String>,
)
    requires
        named_entity(ctx0, pre, owner_key@) == Some(oe),
        target_step(ctx0, ctx2, out0, out1, owner_params(params, owner_key), oe, owner_viewer(ctx0, params), false, future, pre, r1),
        match r1 {
            Err(m) => r == Err::<(), String>(m) && out2 == out1,
            Ok(_) => r is Ok && out2 == out1 + " "@ + owner_adjectives(params),
        },
    ensures
        owner_step(ctx0, ctx2, out0, out2, params, owner_key, future, pre, r),
{
    reveal(owner_step);
    reveal(named_entity);
}

/// The reference to the target of a narrative possessive: no article, no owner, and none
/// of the article options, which belong to the owner.
pub open spec fn possessive_target_params<'a>(params: EntityRefParams<'a>) -> EntityRefParams<'a> {
    EntityRefParams {
        article: None,
        owner_flags: no_flags(),
        flags: TagFlags { article_capitalized: false, article_indefinite: false, force_article: false, ..params.flags },
        ..params
    }
}

/// The flags of a proper noun whose owner is dropped: those handed on by the pronoun step,
/// with the tag's article options back.
pub open spec fn dropped_owner_flags(f: TagFlags, tag: TagFlags) -> TagFlags {
    TagFlags {
        article_capitalized: f.article_capitalized || tag.article_capitalized,
        article_indefinite: f.article_indefinite || tag.article_indefinite,
        force_article: f.force_article || tag.force_article,
        ..f
    }
}

/// What follows the target's pronoun step in a narrative possessive (see `possessive_step`).
#[verifier::opaque]
pub open spec fn possessive_tail<'a>(
    ctx1: RenderContext,
    ctx2: RenderContext,
    out1: Seq<char>,
    out2: Seq<char>,
    params: EntityRefParams<'a>,
    e: TemplateEntity,
    viewer: Seq<char>,
    owner_key: &'a str,
    future: Seq<Seq<char>>,
    pre: KeyMap<&TemplateEntity>,
    pr: Result<PronounResult<'a>, String>,
    r: Result<(), String>,
) -> bool {
    match pr {
        Err(m) => r == Err::<(), String>(m) && ctx2 == ctx1 && out2 == out1,
        Ok(PronounResult::Rendered) => r is Ok && ctx2 == ctx1 && out2 == out1,
        Ok(PronounResult::Fallback { article_to_use, active_flags, actual_p_type }) => {
            if proper_spec(e, viewer) && params.flags.drop_possessive {
                &&& r is Ok
                &&& resolved_step(ctx1, ctx2, out1, out2, params, e, viewer, params.article, actual_p_type, dropped_owner_flags(active_flags, params.flags), false, future, pre)
            } else {
                exists|ctx3: RenderContext, out3: Seq<char>, r3: Result<(), String>|
                    #[trigger] owner_step(ctx1, ctx3, out1, out3, params, owner_key, future, pre, r3)
                        && match r3 {
                            Err(m) => r == Err::<(), String>(m) && ctx2 == ctx3 && out2 == out3,
                            Ok(_) => {
                                &&& r is Ok
                                &&& resolved_step(ctx3, ctx2, out3, out2, possessive_target_params(params), e, viewer, article_to_use, actual_p_type, TagFlags { force_article: false, ..active_flags }, true, future, pre)
                            },
                        }
            }
        },
    }
}

/// What rendering a narrative possessive does. The target's pronoun step comes first: when a
/// pronoun is written (or the step fails) the owner is not rendered at all. A proper noun whose
/// tag drops the owner (`@`) is rendered alone with the tag's article. Otherwise the owner is
/// rendered (`owner_step`), and then the target's name after it, with no forced article
/// (`possessive_tail`).
#[verifier::opaque]
pub open spec fn possessive_step<'a>(
    ctx0: RenderContext,
    ctx2: RenderContext,
    out0: Seq<char>,
    out2: Seq<char>,
    params: EntityRefParams<'a>,
    e: TemplateEntity,
    viewer: Seq<char>,
    owner_key: &'a str,
    future: Seq<Seq<char>>,
    pre: KeyMap<&TemplateEntity>,
    r: Result<(), String>,
) -> bool {
    exists|ctx1: RenderContext, out1: Seq<char>, pr: Result<PronounResult<'a>, String>|
        #[trigger] pronoun_step(ctx0, ctx1, out0, out1, possessive_target_params(params), e, viewer, pre, pr)
            && possessive_tail(ctx1, ctx2, out1, out2, params, e, viewer, owner_key, future, pre, pr, r)
}

/// `possessive_step` from its two parts.
proof fn lemma_possessive<'a>(
    ctx0: RenderContext,
    ctx1: RenderContext,
    ctx2: RenderContext,
    out0: Seq<char>,
    out1: Seq<char>,
    out2: Seq<char>,
    params: EntityRefParams<'a>,
    e: TemplateEntity,
    viewer: Seq<char>,
    owner_key: &'a str,
    future: Seq<Seq<char>>,
    pre: KeyMap<&TemplateEntity>,
    pr: Result<PronounResult<'a>, String>,
    r: Result<(), String>,
)
    requires
        pronoun_step(ctx0, ctx1, out0, out1, possessive_target_params(params), e, viewer, pre, pr),
        possessive_tail(ctx1, ctx2, out1, out2, params, e, viewer, owner_key, future, pre, pr, r),
    ensures
        possessive_step(ctx0, ctx2, out0, out2, params, e, viewer, owner_key, future, pre, r),
{
    reveal(possessive_step);
}

/// `possessive_tail` when the pronoun step wrote a pronoun or failed.
proof fn lemma_tail_stop<'a>(
    ctx1: RenderContext,
    out1: Seq<char>,
    params: EntityRefParams<'a>,
    e: TemplateEntity,
    viewer: Seq<char>,
    owner_key: &'a str,
    future: Seq<Seq<char>>,
    pre: KeyMap<&TemplateEntity>,
    pr: Result<PronounResult<'a>, String>,
    r: Result<(), String>,
)
    requires
        match pr {
            Err(m) => r == Err::<(), String>(m),
            Ok(PronounResult::Rendered) => r is Ok,
            Ok(PronounResult::Fallback { .. }) => false,
        },
    ensures
        possessive_tail(ctx1, ctx1, out1, out1, params, e, viewer, owner_key, future, pre, pr, r),
{
    reveal(possessive_tail);
}

/// `possessive_tail` for a proper noun whose owner is dropped.
proof fn lemma_tail_dropped<'a>(
    ctx1: RenderContext,
    ctx2: RenderContext,
    out1: Seq<char>,
    out2: Seq<char>,
    params: EntityRefParams<'a>,
    e: TemplateEntity,
    viewer: Seq<char>,
    owner_key: &'a str,
    future: Seq<Seq<char>>,
    pre: KeyMap<&TemplateEntity>,
    pr: Result<PronounResult<'a>, String>,
    r: Result<(), String>,
)
    requires
        proper_spec(e, viewer) && params.flags.drop_possessive,
        r is Ok,
        pr matches Ok(PronounResult::Fallback { article_to_use, active_flags, actual_p_type })
            && resolved_step(ctx1, ctx2, out1, out2, params, e, viewer, params.article, actual_p_type, dropped_owner_flags(active_flags, params.flags), false, future, pre),
    ensures
        possessive_tail(ctx1, ctx2, out1, out2, params, e, viewer, owner_key, future, pre, pr, r),
{
    reveal(possessive_tail);
}

/// `possessive_tail` once the owner was rendered, or failed.
proof fn lemma_tail_owner<'a>(
    ctx1: RenderContext,
    ctx3: RenderContext,
    ctx2: RenderContext,
    out1: Seq<char>,
    out3: Seq<char>,
    out2: Seq<char>,
    params: EntityRefParams<'a>,
    e: TemplateEntity,
    viewer: Seq<char>,
    owner_key: &'a str,
    future: Seq<Seq<char>>,
    pre: KeyMap<&TemplateEntity>,
    pr: Result<PronounResult<'a>, String>,
    r3: Result<(), String>,
    r: Result<(), String>,
)
    requires
        !(proper_spec(e, viewer) && params.flags.drop_possessive),
        owner_step(ctx1, ctx3, out1, out3, params, owner_key, future, pre, r3),
        pr matches Ok(PronounResult::Fallback { article_to_use, active_flags, actual_p_type })
            && match r3 {
                Err(m) => r == Err::<(), String>(m) && ctx2 == ctx3 && out2 == out3,
                Ok(_) => {
                    &&& r is Ok
                    &&& resolved_step(ctx3, ctx2, out3, out2, possessive_target_params(params), e, viewer, article_to_use, actual_p_type, TagFlags { force_article: false, ..active_flags }, true, future, pre)
                },
            },
    ensures
        possessive_tail(ctx1, ctx2, out1, out2, params, e, viewer, owner_key, future, pre, pr, r),
{
    reveal(possessive_tail);
}

impl PerspectiveEngine {
    /// Renders a narrative possessive (see `possessive_step`).
    #[verifier::spinoff_prover]
    #[verifier::rlimit(100)]
    pub fn render_narrative_possessive<'a, 'c>(
        ctx: &mut RenderContext<'c>,
        raw_output: &mut String,
        params: &EntityRefParams<'a>,
        entity: &TemplateEntity,
        effective_viewer: &str,
        owner_key: &'a str,
        future_keys: &Vec<&str>,
        pre_resolved: &KeyMap<&'c TemplateEntity>,
    ) -> (r: Result<(), String>)
        requires
            ordinals_below(*old(ctx), usize::MAX - 1),
        ensures
            possessive_step(*old(ctx), *final(ctx), old(raw_output)@, final(raw_output)@, *params, *entity, effective_viewer@, owner_key, str_views(future_keys@), *pre_resolved, r),
    {
        let target_flags = TagFlags { article_capitalized: false, article_indefinite: false, force_article: false, ..params.flags };
        let target_params = EntityRefParams {
            key: params.key,
            article: None,
            p_type: params.p_type,
            owner_key: params.owner_key,
            owner_flags: TagFlags::empty(),
            adjectives: params.adjectives,
            flags: target_flags,
            ordinal: params.ordinal,
        };
        assert(target_params == possessive_target_params(*params));
        let ghost ctx0 = *ctx;
        let ghost out0 = raw_output@;
        let pr = PerspectiveEngine::try_render_pronoun(ctx, raw_output, &target_params, entity, effective_viewer, pre_resolved);
        let ghost ctx1 = *ctx;
        let ghost out1 = raw_output@;
        let ghost prg = pr;
        let (active_flags, actual_p_type, target_article) = match pr {
            Err(m) => {
                let r = Err(m);
                proof {
                    lemma_tail_stop(ctx1, out1, *params, *entity, effective_viewer@, owner_key, str_views(future_keys@), *pre_resolved, prg, r);
                    lemma_possessive(ctx0, ctx1, *ctx, out0, out1, raw_output@, *params, *entity, effective_viewer@, owner_key, str_views(future_keys@), *pre_resolved, prg, r);
                }
                return r;
            },
            Ok(PronounResult::Rendered) => {
                let r = Ok(());
                proof {
                    lemma_tail_stop(ctx1, out1, *params, *entity, effective_viewer@, owner_key, str_views(future_keys@), *pre_resolved, prg, r);
                    lemma_possessive(ctx0, ctx1, *ctx, out0, out1, raw_output@, *params, *entity, effective_viewer@, owner_key, str_views(future_keys@), *pre_resolved, prg, r);
                }
                return r;
            },
            Ok(PronounResult::Fallback { article_to_use, active_flags, actual_p_type }) => (active_flags, actual_p_type, article_to_use),
        };
        if entity.is_proper_noun_for(effective_viewer) && params.flags.drop_possessive {
            let dropped = TagFlags {
                article_capitalized: active_flags.article_capitalized || params.flags.article_capitalized,
                article_indefinite: active_flags.article_indefinite || params.flags.article_indefinite,
                force_article: active_flags.force_article || params.flags.force_article,
                ..active_flags
            };
            PerspectiveEngine::render_resolved_entity(
                ctx,
                raw_output,
                params,
                entity,
                effective_viewer,
                params.article,
                actual_p_type,
                dropped,
                false,
                future_keys,
                pre_resolved,
            );
            let r = Ok(());
            proof {
                lemma_tail_dropped(ctx1, *ctx, out1, raw_output@, *params, *entity, effective_viewer@, owner_key, str_views(future_keys@), *pre_resolved, prg, r);
                lemma_possessive(ctx0, ctx1, *ctx, out0, out1, raw_output@, *params, *entity, effective_viewer@, owner_key, str_views(future_keys@), *pre_resolved, prg, r);
            }
            return r;
        }
        let r3 = PerspectiveEngine::render_narrative_owner(ctx, raw_output, params, owner_key, future_keys, pre_resolved);
        let ghost ctx3 = *ctx;
        let ghost out3 = raw_output@;
        let ghost r3g = r3;
        match r3 {
            Err(m) => {
                let r = Err(m);
                proof {
                    lemma_tail_owner(ctx1, ctx3, *ctx, out1, out3, raw_output@, *params, *entity, effective_viewer@, owner_key, str_views(future_keys@), *pre_resolved, prg, r3g, r);
                    lemma_possessive(ctx0, ctx1, *ctx, out0, out1, raw_output@, *params, *entity, effective_viewer@, owner_key, str_views(future_keys@), *pre_resolved, prg, r);
                }
                return r;
            },
            Ok(()) => {},
        }
        let tail_flags = TagFlags { force_article: false, ..active_flags };
        PerspectiveEngine::render_resolved_entity(
            ctx,
            raw_output,
            &target_params,
            entity,
            effective_viewer,
            target_article,
            actual_p_type,
            tail_flags,
            true,
            future_keys,
            pre_resolved,
        );
        let r = Ok(());
        proof {
            lemma_tail_owner(ctx1, ctx3, *ctx, out1, out3, raw_output@, *params, *entity, effective_viewer@, owner_key, str_views(future_keys@), *pre_resolved, prg, r3g, r);
            lemma_possessive(ctx0, ctx1, *ctx, out0, out1, raw_output@, *params, *entity, effective_viewer@, owner_key, str_views(future_keys@), *pre_resolved, prg, r);
        }
        r
    }
}

// ---------------------------------------------------------------------------
// An entity reference
// ---------------------------------------------------------------------------

/// The viewer under which the entity of a reference is named: nobody's when the tag forces
/// the third person or the context's stance is the third person, else the context's viewer.
pub open spec fn reference_viewer(ctx: RenderContext, params: EntityRefParams) -> Seq<char> {
    if params.flags.force_3rd_person || ctx.stance == ActorStance::ThirdPerson {
        NULL_VIEWER@
    } else {
        ctx.viewer_id@
    }
}

/// What rendering an entity reference does: a key that names no entity is an error (see `lookup_error`);
/// otherwise a narrative possessive is rendered as `possessive_step` says, and any other
/// reference as `target_step` says.
#[verifier::opaque]
pub open spec fn entity_ref_step<'a>(
    ctx0: RenderContext,
    ctx2: RenderContext,
    out0: Seq<char>,
    out2: Seq<char>,
    params: EntityRefParams<'a>,
    future: Seq<Seq<char>>,
    pre: KeyMap<&TemplateEntity>,
    r: Result<(), String>,
) -> bool {
    match resolved_entity(ctx0, pre, params.key@) {
        None => r matches Err(m) && m@ == lookup_error(ctx0, params.key@) && ctx2 == ctx0 && out2 == out0,
        Some(e) => match params.owner_key {
            Some(ok) => possessive_step(ctx0, ctx2, out0, out2, params, e, reference_viewer(ctx0, params), ok, future, pre, r),
            None => target_step(ctx0, ctx2, out0, out2, params, e, reference_viewer(ctx0, params), false, future, pre, r),
        },
    }
}

/// `entity_ref_step` from the lookup of the key and what followed it.
proof fn lemma_entity_ref<'a>(
    ctx0: RenderContext,
    ctx2: RenderContext,
    out0: Seq<char>,
    out2: Seq<char>,
    params: EntityRefParams<'a>,
    future: Seq<Seq<char>>,
    pre: KeyMap<&TemplateEntity>,
    found: Option<TemplateEntity>,
    r: Result<(), String>,
)
    requires
        named_entity(ctx0, pre, params.key@) == found,
        match found {
            None => r matches Err(m) && m@ == lookup_error(ctx0, params.key@) && ctx2 == ctx0 && out2 == out0,
            Some(e) => match params.owner_key {
                Some(ok) => possessive_step(ctx0, ctx2, out0, out2, params, e, reference_viewer(ctx0, params), ok, future, pre, r),
                None => target_step(ctx0, ctx2, out0, out2, params, e, reference_viewer(ctx0, params), false, future, pre, r),
            },
        },
    ensures
        entity_ref_step(ctx0, ctx2, out0, out2, params, future, pre, r),
{
    reveal(entity_ref_step);
    reveal(named_entity);
}

impl PerspectiveEngine {
    /// Renders an entity reference (see `entity_ref_step`).
    pub fn render_entity_ref<'a, 'c>(
        ctx: &mut RenderContext<'c>,
        raw_output: &mut String,
        params: &EntityRefParams<'a>,
        future_keys: &Vec<&str>,
        pre_resolved: &KeyMap<&'c TemplateEntity>,
    ) -> (r: Result<(), String>)
        requires
            ordinals_below(*old(ctx), if params.owner_key is Some { usize::MAX - 1 } else { usize::MAX as int }),
        ensures
            entity_ref_step(*old(ctx), *final(ctx), old(raw_output)@, final(raw_output)@, *params, str_views(future_keys@), *pre_resolved, r),
    {
        let ghost ctx0 = *ctx;
        let ghost out0 = raw_output@;
        let entity = match find_entity(ctx, pre_resolved, params.key) {
            Some(e) => e,
            None => {
                let r = Err(lookup_error_message(ctx, params.key));
                proof {
                    lemma_entity_ref(ctx0, *ctx, out0, raw_output@, *params, str_views(future_keys@), *pre_resolved, None, r);
                }
                return r;
            },
        };
        let effective_viewer = effective_viewer_id(ctx, params.flags.force_3rd_person);
        assert(effective_viewer@ == reference_viewer(ctx0, *params));
        let r = match params.owner_key {
            Some(owner_key) => PerspectiveEngine::render_narrative_possessive(
                ctx,
                raw_output,
                params,
                entity,
                effective_viewer,
                owner_key,
                future_keys,
                pre_resolved,
            ),
            None => PerspectiveEngine::render_target_entity(
                ctx,
                raw_output,
                params,
                entity,
                effective_viewer,
                false,
                future_keys,
                pre_resolved,
            ),
        };
        proof {
            lemma_entity_ref(ctx0, *ctx, out0, raw_output@, *params, str_views(future_keys@), *pre_resolved, Some(*entity), r);
        }
        r
    }
}

} // verus!
