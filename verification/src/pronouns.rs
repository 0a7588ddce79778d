//! Whether an entity reference is rendered as a pronoun, and which one; otherwise, the
//! article and flags with which its name is rendered instead.
use vstd::prelude::*;
use crate::context::{evicted, same_setup};
use crate::engine::{
    adjective_words, after_tracking, check_is_active_subject, is_active_subject,
    is_pronoun_ambiguous, opt_str_view, pronoun_ambiguous, track_recent_entity, update_memory,
    EntityRefParams, PerspectiveEngine, PronounContextFlags,
};
use crate::grammar::{
    capitalized_if, pronoun_case, pronoun_forms, push_capitalized_if, resolve_pronoun,
    unknown_pronoun_message,
};
use crate::groups::{determine_group_singular_gender, shared_singular_gender};
use crate::keymap::KeyMap;
use crate::models::{
    contains_viewer_spec, flat_leaves, gender_spec, opt_view, plural_spec, recent_keys,
    recent_position, recent_views, ActorStance, Gender, RenderContext, TemplateEntity,
};
use crate::parser::TagFlags;
use crate::text::{first_index, str_eq};

verus! {

/// What the pronoun step hands on when no pronoun is rendered.
pub enum PronounResult<'a> {
    /// A pronoun was written.
    Rendered,
    /// The name is to be rendered instead, with this article, these flags and this pronoun type.
    Fallback {
        /// The article to render the name with.
        article_to_use: Option<&'a str>,
        /// The flags to render the name with.
        active_flags: TagFlags,
        /// The pronoun type asked for, after a reflexive object was recognised.
        actual_p_type: Option<&'a str>,
    },
}

/// Whether a pronoun may stand for the entity. The viewer and the active subject are
/// pronouns ("you", "itself"), except a group addressed as the ambiguous plural "you";
/// a reflexive always is; `!` forces one; `*` asks for the noun unless the entity is the
/// single viewer or the pronoun is reflexive. An entity already mentioned becomes a pronoun
/// too, unless the noun is asked for or the pronoun would be ambiguous.
#[verifier::opaque]
pub open spec fn can_use_pronoun(ctx: RenderContext, key: Seq<char>, g: Gender, pc: PronounContextFlags, f: TagFlags) -> bool {
    let ambiguous_plural_you = pc.is_viewer && pc.is_group && ctx.stance == ActorStance::SecondPerson
        && !pc.is_reflexive && !f.allow_ambiguous_you;
    let base = (!ambiguous_plural_you && (pc.is_active_subject || pc.is_viewer)) || pc.is_reflexive || f.no_smart;
    let first = if f.prefer_noun && (!pc.is_viewer || pc.is_group) && !pc.is_reflexive { false } else { base };
    first || (pc.already_seen && !f.prefer_noun && !pronoun_ambiguous(ctx, key, g, pc, f))
}

/// The number and gender a pronoun for the entity takes, and whether one member is
/// extracted from a group: a forced singular or an extracted member is singular, with the
/// group's shared singular gender (or neutral for a plural entity).
#[verifier::opaque]
pub open spec fn pronoun_number(params: EntityRefParams, e: TemplateEntity) -> (bool, Gender, bool) {
    let extract = params.flags.extract_group_member && e.members is Some;
    if params.flags.force_singular || extract {
        (false, match e.members {
            Some(ms) => shared_singular_gender(flat_leaves(ms@, 0)),
            None => if gender_spec(e) == Gender::Plural { Gender::Neutral } else { gender_spec(e) },
        }, extract)
    } else {
        (plural_spec(e), gender_spec(e), extract)
    }
}

/// The pronoun type after a reflexive object is recognised: the object pronoun of the
/// active subject is reflexive.
pub open spec fn actual_p_type(p: Seq<char>, active: bool) -> Seq<char> {
    if active && p == "obj"@ { "reflex"@ } else { p }
}

/// Whether the memory already holds the key.
pub open spec fn already_seen(ctx: RenderContext, key: Seq<char>) -> bool {
    first_index(recent_keys(recent_views(ctx.recent_entities@)), key) is Some
}

/// The situation of a pronoun for the entity.
#[verifier::opaque]
pub open spec fn pronoun_situation(ctx: RenderContext, params: EntityRefParams, e: TemplateEntity, viewer: Seq<char>, pre: KeyMap<&TemplateEntity>) -> PronounContextFlags {
    let (is_plural, _, extract) = pronoun_number(params, e);
    let active = is_active_subject(ctx, e, params.key@, pre);
    PronounContextFlags {
        is_plural,
        is_group: e.members is Some,
        is_viewer: contains_viewer_spec(e, viewer) && !extract,
        is_active_subject: active,
        is_reflexive: match params.p_type {
            Some(p) => actual_p_type(p@, active) == "reflex"@,
            None => false,
        },
        already_seen: already_seen(ctx, params.key@),
    }
}

/// The pronoun written for the entity, or the message for an unknown pronoun type.
#[verifier::opaque]
pub open spec fn pronoun_word(ctx: RenderContext, params: EntityRefParams, e: TemplateEntity, viewer: Seq<char>, pre: KeyMap<&TemplateEntity>, p: Seq<char>) -> Result<Seq<char>, Seq<char>> {
    let pc = pronoun_situation(ctx, params, e, viewer, pre);
    let ap = actual_p_type(p, pc.is_active_subject);
    match pronoun_case(ap) {
        Some(i) => Ok(pronoun_forms(pronoun_number(params, e).1, pc.is_viewer, pc.is_plural, ctx.stance)[i]),
        None => Err(unknown_pronoun_message(ap)),
    }
}

/// The article and flags with which the name is rendered when no pronoun is: a possessive
/// pronoun type makes the name possessive, a capitalised pronoun capitalises the article,
/// and without an article the name takes "a" ("one of the" for a forced singular of a
/// plural entity), capitalised as the article was asked to be.
/// The flags of a name rendered in place of a pronoun: a possessive pronoun type makes the
/// name possessive, and a capitalised pronoun capitalises the article.
pub open spec fn fallback_flags(f0: TagFlags, actual: Option<Seq<char>>) -> TagFlags {
    let f1 = if actual == Some("poss"@) || actual == Some("abs_poss"@) { TagFlags { is_possessive: true, ..f0 } } else { f0 };
    if f1.pronoun_capitalized { TagFlags { article_capitalized: true, ..f1 } } else { f1 }
}

/// The article and flags with which the name is rendered when no pronoun is (see
/// `fallback_flags`); without an article the name takes "a" ("one of the" for a forced
/// singular of a plural entity), capitalised as the article was asked to be.
#[verifier::opaque]
pub open spec fn fallback_choice(params: EntityRefParams, e: TemplateEntity, actual: Option<Seq<char>>) -> (Option<Seq<char>>, TagFlags) {
    let f2 = fallback_flags(params.flags, actual);
    match params.article {
        Some(a) => (Some(a@), f2),
        None => {
            let is_cap = f2.article_capitalized;
            let art = if params.flags.force_singular && plural_spec(e) {
                if is_cap { "One of the"@ } else { "one of the"@ }
            } else if is_cap {
                "A"@
            } else {
                "a"@
            };
            (Some(art), TagFlags {
                article_indefinite: !params.flags.force_singular || !plural_spec(e),
                article_capitalized: is_cap,
                is_capitalized: false,
                ..f2
            })
        },
    }
}

/// The memory after a pronoun is rendered for an entity not yet remembered: it becomes the
/// last mentioned and is tracked.
#[verifier::opaque]
pub open spec fn pronoun_memory(ctx: RenderContext, params: EntityRefParams, e: TemplateEntity) -> (Seq<crate::models::RecentModel>, Option<Seq<char>>, Option<Seq<char>>) {
    evicted(
        ctx.anaphora_limit as nat,
        after_tracking(
            recent_views(ctx.recent_entities@),
            params.key@,
            e,
            ctx.viewer_id@,
            adjective_words(opt_str_view(params.adjectives)),
            None,
        ),
        Some(params.key@),
        opt_view(ctx.active_subject),
    )
}

/// What the pronoun step does. Without a pronoun type, it hands the tag's own article,
/// flags and no pronoun type on, and changes nothing. Otherwise, when a pronoun may stand
/// for the entity (`can_use_pronoun`), an entity not yet remembered is remembered
/// (`pronoun_memory`), and the pronoun (`pronoun_word`) is written, capitalised when the
/// pronoun, the name or the article was; an unknown pronoun type is an error. When no
/// pronoun may stand, the memory and the output are unchanged and the article and flags
/// of `fallback_choice` are handed on.
#[verifier::opaque]
pub open spec fn pronoun_step(
    ctx0: RenderContext,
    ctx1: RenderContext,
    out0: Seq<char>,
    out1: Seq<char>,
    params: EntityRefParams,
    e: TemplateEntity,
    viewer: Seq<char>,
    pre: KeyMap<&TemplateEntity>,
    r: Result<PronounResult, String>,
) -> bool {
    match params.p_type {
        None => {
            &&& r matches Ok(PronounResult::Fallback { article_to_use, active_flags, actual_p_type })
                && article_to_use == params.article && active_flags == params.flags && actual_p_type is None
            &&& ctx1 == ctx0
            &&& out1 == out0
        },
        Some(p) => {
            let pc = pronoun_situation(ctx0, params, e, viewer, pre);
            let g = pronoun_number(params, e).1;
            let ap = actual_p_type(p@, pc.is_active_subject);
            if can_use_pronoun(ctx0, params.key@, g, pc, params.flags) {
                &&& same_setup(ctx1, ctx0)
                &&& ctx1.ordinals == ctx0.ordinals
                &&& ctx1.ordinal_history == ctx0.ordinal_history
                &&& if pc.already_seen {
                    &&& ctx1.recent_entities == ctx0.recent_entities
                    &&& ctx1.last_mentioned == ctx0.last_mentioned
                    &&& ctx1.active_subject == ctx0.active_subject
                } else {
                    (recent_views(ctx1.recent_entities@), opt_view(ctx1.last_mentioned), opt_view(ctx1.active_subject))
                        == pronoun_memory(ctx0, params, e)
                }
                &&& match pronoun_word(ctx0, params, e, viewer, pre, p@) {
                    Ok(w) => r matches Ok(PronounResult::Rendered) && out1 == out0 + capitalized_if(
                        w,
                        params.flags.pronoun_capitalized || params.flags.is_capitalized || params.flags.article_capitalized,
                    ),
                    Err(m) => r matches Err(x) && x@ == m && out1 == out0,
                }
            } else {
                &&& ctx1 == ctx0
                &&& out1 == out0
                &&& r matches Ok(PronounResult::Fallback { article_to_use, active_flags, actual_p_type })
                    && (opt_str_view(article_to_use), active_flags) == fallback_choice(params, e, Some(ap))
                    && opt_str_view(actual_p_type) == Some(ap)
            }
        },
    }
}

impl PerspectiveEngine {
    /// Decides whether a pronoun may stand for the entity (see `can_use_pronoun`).
    pub fn evaluate_can_use_pronoun(
        ctx: &RenderContext,
        key: &str,
        effective_gender: Gender,
        pronoun_ctx: PronounContextFlags,
        active_flags: TagFlags,
    ) -> (r: bool)
        ensures
            r == can_use_pronoun(*ctx, key@, effective_gender, pronoun_ctx, active_flags),
    {
        proof {
            reveal(can_use_pronoun);
        }
        let is_group = pronoun_ctx.is_group;
        let is_viewer = pronoun_ctx.is_viewer;
        let is_active_subject = pronoun_ctx.is_active_subject;
        let is_reflexive = pronoun_ctx.is_reflexive;
        let already_seen = pronoun_ctx.already_seen;
        let ambiguous_plural_you = is_viewer && is_group && ctx.stance == ActorStance::SecondPerson
            && !is_reflexive && !active_flags.allow_ambiguous_you;
        let mut can_use = (!ambiguous_plural_you && (is_active_subject || is_viewer)) || is_reflexive
            || active_flags.no_smart;
        if active_flags.prefer_noun && (!is_viewer || is_group) && !is_reflexive {
            can_use = false;
        }
        if !can_use && already_seen && !active_flags.prefer_noun
            && !is_pronoun_ambiguous(ctx, key, effective_gender, pronoun_ctx, active_flags) {
            can_use = true;
        }
        can_use
    }

    /// Renders the entity as a pronoun when one may stand for it, or hands on what its
    /// name is rendered with (see `pronoun_step`).
    pub fn try_render_pronoun<'a, 'c>(
        ctx: &mut RenderContext<'c>,
        raw_output: &mut String,
        params: &EntityRefParams<'a>,
        entity: &TemplateEntity,
        effective_viewer: &str,
        pre_resolved: &KeyMap<&'c TemplateEntity>,
    ) -> (r: Result<PronounResult<'a>, String>)
        ensures
            pronoun_step(*old(ctx), *final(ctx), old(raw_output)@, final(raw_output)@, *params, *entity, effective_viewer@, *pre_resolved, r),
            final(ctx).ordinals == old(ctx).ordinals,
            final(ctx).ordinal_history == old(ctx).ordinal_history,
            r matches Ok(PronounResult::Fallback { .. }) ==> *final(ctx) == *old(ctx) && final(raw_output)@ == old(raw_output)@,
    {
        proof {
            reveal(pronoun_step);
        }
        let p_type = match params.p_type {
            Some(p) => p,
            None => {
                return Ok(PronounResult::Fallback {
                    article_to_use: params.article,
                    active_flags: params.flags,
                    actual_p_type: None,
                });
            },
        };
        let (effective_gender, pronoun_ctx, actual) = pronoun_setup(ctx, params, p_type, entity, effective_viewer, pre_resolved);
        let can_use = PerspectiveEngine::evaluate_can_use_pronoun(ctx, params.key, effective_gender, pronoun_ctx, params.flags);
        if can_use {
            let r = write_pronoun(ctx, raw_output, params, p_type, entity, effective_viewer, pre_resolved, effective_gender, pronoun_ctx, actual);
            return r;
        }
        let (article_to_use, flags) = pronoun_fallback(params, entity, actual);
        Ok(PronounResult::Fallback { article_to_use, active_flags: flags, actual_p_type: Some(actual) })
    }
}

/// The gender, the situation and the actual pronoun type of a pronoun for the entity.
fn pronoun_setup<'a, 'c>(
    ctx: &RenderContext<'c>,
    params: &EntityRefParams<'a>,
    p_type: &'a str,
    entity: &TemplateEntity,
    effective_viewer: &str,
    pre_resolved: &KeyMap<&'c TemplateEntity>,
) -> (r: (Gender, PronounContextFlags, &'a str))
    requires
        params.p_type == Some(p_type),
    ensures
        r.0 == pronoun_number(*params, *entity).1,
        r.1 == pronoun_situation(*ctx, *params, *entity, effective_viewer@, *pre_resolved),
        r.2@ == actual_p_type(p_type@, r.1.is_active_subject),
{
    proof {
        reveal(pronoun_number);
        reveal(pronoun_situation);
    }
    let mut is_plural = entity.is_plural();
    let mut effective_gender = entity.gender();
    let is_group = entity.group_members().is_some();
    let extract_member = params.flags.extract_group_member && is_group;
    if params.flags.force_singular || extract_member {
        is_plural = false;
        match entity.group_members() {
            Some(members) => {
                effective_gender = determine_group_singular_gender(members);
            },
            None => {
                if effective_gender == Gender::Plural {
                    effective_gender = Gender::Neutral;
                }
            },
        }
    }
    assert((is_plural, effective_gender, extract_member) == pronoun_number(*params, *entity));
    let is_viewer = entity.contains_viewer(effective_viewer) && !extract_member;
    let is_active_subject = check_is_active_subject(ctx, entity, params.key, pre_resolved);
    let actual: &'a str = if is_active_subject && str_eq(p_type, "obj") {
        "reflex"
    } else {
        p_type
    };
    proof {
        reveal_strlit("obj");
        reveal_strlit("reflex");
    }
    assert(actual@ == actual_p_type(p_type@, is_active_subject));
    let seen = recent_position(&ctx.recent_entities, params.key).is_some();
    let is_reflexive = str_eq(actual, "reflex");
    let pronoun_ctx = PronounContextFlags {
        is_plural,
        is_group,
        is_viewer,
        is_active_subject,
        is_reflexive,
        already_seen: seen,
    };
    (effective_gender, pronoun_ctx, actual)
}

/// Writes the pronoun for the entity, remembering an entity not yet remembered.
fn write_pronoun<'a, 'c>(
    ctx: &mut RenderContext<'c>,
    raw_output: &mut String,
    params: &EntityRefParams<'a>,
    p_type: &'a str,
    entity: &TemplateEntity,
    effective_viewer: &str,
    pre_resolved: &KeyMap<&'c TemplateEntity>,
    effective_gender: Gender,
    pronoun_ctx: PronounContextFlags,
    actual: &'a str,
) -> (r: Result<PronounResult<'a>, String>)
    requires
        params.p_type == Some(p_type),
        effective_gender == pronoun_number(*params, *entity).1,
        pronoun_ctx == pronoun_situation(*old(ctx), *params, *entity, effective_viewer@, *pre_resolved),
        actual@ == actual_p_type(p_type@, pronoun_ctx.is_active_subject),
    ensures
        same_setup(*final(ctx), *old(ctx)),
        final(ctx).ordinals == old(ctx).ordinals,
        final(ctx).ordinal_history == old(ctx).ordinal_history,
        if pronoun_ctx.already_seen {
            &&& final(ctx).recent_entities == old(ctx).recent_entities
            &&& final(ctx).last_mentioned == old(ctx).last_mentioned
            &&& final(ctx).active_subject == old(ctx).active_subject
        } else {
            (recent_views(final(ctx).recent_entities@), opt_view(final(ctx).last_mentioned), opt_view(final(ctx).active_subject))
                == pronoun_memory(*old(ctx), *params, *entity)
        },
        match pronoun_word(*old(ctx), *params, *entity, effective_viewer@, *pre_resolved, p_type@) {
            Ok(w) => r matches Ok(PronounResult::Rendered) && final(raw_output)@ == old(raw_output)@ + capitalized_if(
                w,
                params.flags.pronoun_capitalized || params.flags.is_capitalized || params.flags.article_capitalized,
            ),
            Err(m) => r matches Err(x) && x@ == m && final(raw_output)@ == old(raw_output)@,
        },
{
    proof {
        reveal(pronoun_word);
        reveal(pronoun_memory);
        reveal(pronoun_situation);
        reveal(pronoun_number);
    }
    let ghost ctx0 = *ctx;
    if !pronoun_ctx.already_seen {
        update_memory(&mut ctx.last_mentioned, params.key);
        track_recent_entity(ctx, params.key, entity, params.adjectives, None);
    }
    let pronoun = match resolve_pronoun(effective_gender, actual, pronoun_ctx.is_viewer, pronoun_ctx.is_plural, ctx.stance) {
        Ok(w) => w,
        Err(e) => {
            return Err(e);
        },
    };
    let cap = params.flags.pronoun_capitalized || params.flags.is_capitalized || params.flags.article_capitalized;
    push_capitalized_if(raw_output, pronoun, cap);
    Ok(PronounResult::Rendered)
}

/// The flags of a name rendered in place of a pronoun (see `fallback_flags`).
fn pronoun_fallback_flags(f0: TagFlags, actual: &str) -> (r: TagFlags)
    ensures
        r == fallback_flags(f0, Some(actual@)),
{
    let mut flags = f0;
    if str_eq(actual, "poss") || str_eq(actual, "abs_poss") {
        flags.is_possessive = true;
    }
    if flags.pronoun_capitalized {
        flags.article_capitalized = true;
    }
    flags
}

/// The article and flags handed on when no pronoun is rendered (see `fallback_choice`).
fn pronoun_fallback<'a>(params: &EntityRefParams<'a>, entity: &TemplateEntity, actual: &'a str) -> (r: (Option<&'a str>, TagFlags))
    ensures
        (opt_str_view(r.0), r.1) == fallback_choice(*params, *entity, Some(actual@)),
{
    proof {
        reveal(fallback_choice);
    }
    let plural = entity.is_plural();
    let flags = pronoun_fallback_flags(params.flags, actual);
    match params.article {
        Some(a) => (Some(a), flags),
        None => {
            let is_cap = flags.article_capitalized;
            let fallback: &'a str = if params.flags.force_singular && plural {
                if is_cap { "One of the" } else { "one of the" }
            } else if is_cap {
                "A"
            } else {
                "a"
            };
            let f = TagFlags {
                article_indefinite: !params.flags.force_singular || !plural,
                article_capitalized: is_cap,
                is_capitalized: false,
                ..flags
            };
            (Some(fallback), f)
        },
    }
}

} // verus!
