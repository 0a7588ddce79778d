//! Rendering one entity reference once its pronoun step is done: the name with its article,
//! adjectives and possessive ending, the viewer's own word, or a group list.
use vstd::prelude::*;
use crate::context::{evicted, same_setup};
use crate::engine::{
    adjective_words, after_tracking, collision_candidates, display_choice, opt_str_view,
    ordinal_assignment, ordinal_group, held_ordinal, possessive_suffix, resolve_display_name, str_views,
    track_recent_entity, update_memory, viewer_name, viewer_word, EntityRefParams,
    PerspectiveEngine, ViewerNameFlags,
};
use crate::groups::{group_text, render_group_entity};
use crate::keymap::KeyMap;
use crate::models::{
    contains_viewer_spec, name_spec, history_view, opt_view, ordinals_model, recent_position, recent_views,
    RecentModel,
};
use crate::parser::{no_flags, TagFlags};
use crate::pronouns::already_seen;
use crate::text::str_eq;
use crate::grammar::{
    article_resolution, capitalize_chars, capitalize_chars_if, capitalized, capitalized_if,
    resolve_article, ArticleFlags,
};
use crate::groups::ordinal_nat;
use crate::models::{collective_spec, plural_spec, proper_spec, RenderContext, TemplateEntity};
use crate::text::{append_chars, append_str, char_to_uppercase, char_uppercase, chars_of, string_of};

verus! {

// ---------------------------------------------------------------------------
// Capitals
// ---------------------------------------------------------------------------

/// The text in capitals: every character replaced by its upper-case mapping.
pub open spec fn caps_text(s: Seq<char>) -> Seq<char>
    decreases s.len(),
{
    if s.len() == 0 {
        seq![]
    } else {
        caps_text(s.drop_last()) + char_uppercase(s.last())
    }
}

/// Appends the text in capitals (see `caps_text`).
pub fn apply_all_caps(input: &str, out: &mut String)
    ensures
        final(out)@ == old(out)@ + caps_text(input@),
{
    let cs = chars_of(input);
    let mut acc = chars_of(out.as_str());
    let ghost start = acc@;
    let mut i: usize = 0;
    assert(cs@.take(0) =~= Seq::<char>::empty());
    assert(start + caps_text(Seq::<char>::empty()) =~= start);
    while i < cs.len()
        invariant
            i <= cs.len(),
            cs@ == input@,
            acc@ == start + caps_text(cs@.take(i as int)),
        decreases cs.len() - i,
    {
        let up = char_to_uppercase(cs[i]);
        append_chars(&mut acc, &up);
        assert(cs@.take(i + 1).drop_last() =~= cs@.take(i as int));
        assert(cs@.take(i + 1).last() == cs@[i as int]);
        assert(acc@ =~= start + caps_text(cs@.take(i + 1)));
        i = i + 1;
    }
    assert(cs@.take(i as int) =~= cs@);
    *out = string_of(&acc);
}

// ---------------------------------------------------------------------------
// A single entity
// ---------------------------------------------------------------------------

/// The article options of a single entity's name.
pub open spec fn single_article_flags(ctx: RenderContext, e: TemplateEntity, viewer: Seq<char>, params: EntityRefParams, after_possessive: bool, is_plural: bool) -> ArticleFlags {
    ArticleFlags {
        is_proper_noun: proper_spec(e, viewer),
        is_plural,
        force_article: params.flags.force_article,
        after_possessive,
        is_capitalized: false,
    }
}

/// The article of a single entity's name, if one is printed.
pub open spec fn single_article(ctx: RenderContext, e: TemplateEntity, viewer: Seq<char>, name: Seq<char>, params: EntityRefParams, after_possessive: bool, is_plural: bool) -> Option<Seq<char>> {
    match params.article {
        Some(a) => article_resolution(
            a@,
            name,
            ordinal_nat(params.ordinal),
            collective_spec(e),
            ctx.ordinal_word_threshold as nat,
            single_article_flags(ctx, e, viewer, params, after_possessive, is_plural),
        ),
        None => None,
    }
}

/// The adjectives of the tag before a single entity's name (in capitals for a tag written in
/// capitals, capitalised when they open the tag), with a trailing space.
pub open spec fn single_adjectives(params: EntityRefParams, article_printed: bool, cap_whole: bool, after_possessive: bool) -> Seq<char> {
    match params.adjectives {
        Some(a) => if a@.len() > 0 {
            let fa = if params.flags.all_caps { caps_text(a@) } else { a@ };
            (if !article_printed && cap_whole && !after_possessive { capitalized(fa) } else { fa }) + " "@
        } else {
            seq![]
        },
        None => seq![],
    }
}

/// The text of a single entity: the article (when one resolves), the adjectives, the name
/// (capitalised as the tag asks, or as the opening of the tag when nothing precedes it), and
/// the possessive ending when it is asked for.
pub open spec fn single_entity_text(ctx: RenderContext, e: TemplateEntity, viewer: Seq<char>, name: Seq<char>, params: EntityRefParams, cap_whole: bool, after_possessive: bool, is_plural: bool) -> Seq<char> {
    let art = single_article(ctx, e, viewer, name, params, after_possessive, is_plural);
    let adj = single_adjectives(params, art is Some, cap_whole, after_possessive);
    let cap_noun = if art is Some || adj.len() > 0 || (after_possessive && !params.flags.force_article) {
        params.flags.is_capitalized
    } else {
        cap_whole
    };
    let nm = capitalized_if(name, cap_noun);
    (match art { Some(t) => t, None => seq![] }) + adj + nm + (if params.flags.is_possessive { possessive_suffix(nm, plural_spec(e)) } else { seq![] })
}

impl PerspectiveEngine {
    /// Writes a single entity (see `single_entity_text`).
    #[verifier::rlimit(40)]
    pub fn render_single_entity(
        ctx: &RenderContext,
        raw_output: &mut String,
        entity: &TemplateEntity,
        effective_viewer: &str,
        name: String,
        active_params: &EntityRefParams,
        cap_whole: bool,
        after_possessive: bool,
        is_plural: bool,
    )
        ensures
            final(raw_output)@ == old(raw_output)@ + single_entity_text(*ctx, *entity, effective_viewer@, name@, *active_params, cap_whole, after_possessive, is_plural),
    {
        let ghost art = single_article(*ctx, *entity, effective_viewer@, name@, *active_params, after_possessive, is_plural);
        let mut text: Vec<char> = Vec::new();
        let article_flags = ArticleFlags {
            is_proper_noun: entity.is_proper_noun_for(effective_viewer),
            is_plural,
            force_article: active_params.flags.force_article,
            after_possessive,
            is_capitalized: false,
        };
        let collective = entity.collective_noun();
        let resolved = match active_params.article {
            Some(a) => resolve_article(
                a,
                name.as_str(),
                active_params.ordinal,
                match &collective { Some(c) => Some(c.as_str()), None => None },
                ctx.ordinal_word_threshold,
                article_flags,
            ),
            None => None,
        };
        let article_printed = resolved.is_some();
        match resolved {
            Some(t) => {
                text = chars_of(t.as_str());
            },
            None => {},
        }
        assert(text@ == (match art { Some(t) => t, None => Seq::<char>::empty() }));
        let ghost before_adj = text@;
        let mut adj_printed = false;
        match active_params.adjectives {
            Some(adj) => {
                if adj.unicode_len() > 0 {
                    let mut formatted = String::new();
                    if active_params.flags.all_caps {
                        apply_all_caps(adj, &mut formatted);
                    } else {
                        formatted = String::from_str(adj);
                    }
                    let fa = chars_of(formatted.as_str());
                    if !article_printed && cap_whole && !after_possessive {
                        append_chars(&mut text, &capitalize_chars(&fa));
                    } else {
                        append_chars(&mut text, &fa);
                    }
                    text.push(' ');
                    adj_printed = true;
                }
            },
            None => {},
        }
        proof {
            reveal_strlit(" ");
        }
        assert(text@ =~= before_adj + single_adjectives(*active_params, article_printed, cap_whole, after_possessive));
        let should_cap_noun = if article_printed || adj_printed || (after_possessive && !active_params.flags.force_article) {
            active_params.flags.is_capitalized
        } else {
            cap_whole
        };
        let nm = capitalize_chars_if(&chars_of(name.as_str()), should_cap_noun);
        append_chars(&mut text, &nm);
        if active_params.flags.is_possessive {
            append_str(&mut text, PerspectiveEngine::get_possessive_suffix(string_of(&nm).as_str(), entity.is_plural()));
        }
        let mut all = chars_of(raw_output.as_str());
        append_chars(&mut all, &text);
        *raw_output = string_of(&all);
    }
}


// ---------------------------------------------------------------------------
// A resolved entity
// ---------------------------------------------------------------------------

/// The name an entity is rendered under, its ordinal, and the ordinal records afterwards:
/// its own name and no ordinal without smart naming; otherwise `display_choice` and the
/// ordinal assigned under `ordinal_group`.
pub open spec fn display_result(ctx: RenderContext, e: TemplateEntity, params: EntityRefParams, viewer: Seq<char>, future: Seq<Seq<char>>, pre: KeyMap<&TemplateEntity>) -> (Seq<char>, Option<usize>, Seq<(Seq<char>, usize, Seq<(Seq<char>, usize)>)>) {
    if params.flags.no_smart {
        (name_spec(e, viewer), None, ordinals_model(ctx.ordinals@))
    } else {
        let dc = display_choice(collision_candidates(ctx, future, pre), e, params.key@, viewer, ctx.adjective_disambiguation_limit as nat);
        let oa = ordinal_assignment(ordinals_model(ctx.ordinals@), ordinal_group(opt_str_view(params.owner_key), params.key@, dc.0), params.key@, dc.1);
        (dc.0, oa.1, oa.0)
    }
}

/// The article after the smart upgrade: an indefinite article becomes "the" for an entity
/// already remembered, and "another" for the second of entities sharing a name.
pub open spec fn upgraded_article<'a>(article: Option<&'a str>, flags: TagFlags, seen: bool, ordinal: Option<usize>) -> Option<&'a str> {
    if !flags.no_smart && article is Some && flags.article_indefinite {
        if seen {
            Some(if flags.article_capitalized { "The" } else { "the" })
        } else if ordinal == Some(2usize) {
            Some(if flags.article_capitalized { "Another" } else { "another" })
        } else {
            article
        }
    } else {
        article
    }
}

/// The parameters the name is rendered with.
pub open spec fn resolved_params<'a>(params: EntityRefParams<'a>, article: Option<&'a str>, p_type: Option<&'a str>, flags: TagFlags, after_possessive: bool, ordinal: Option<usize>) -> EntityRefParams<'a> {
    EntityRefParams {
        key: params.key,
        article,
        p_type,
        owner_key: None,
        owner_flags: no_flags(),
        adjectives: if after_possessive { None } else { params.adjectives },
        flags,
        ordinal,
    }
}

/// The text of a resolved entity: a group's list, the viewer's own word, or a single
/// entity's name (see `single_entity_text`), the whole capitalised when the tag or its
/// article is.
pub open spec fn resolved_text(ctx: RenderContext, e: TemplateEntity, viewer: Seq<char>, name: Seq<char>, ap: EntityRefParams, after_possessive: bool, pre: KeyMap<&TemplateEntity>) -> Seq<char> {
    let cap_whole = ap.flags.is_capitalized || ap.flags.article_capitalized;
    match e.members {
        Some(ms) => match group_text(ctx, e, ms@, viewer, ap, after_possessive, pre) {
            Some(t) => capitalized_if(t, cap_whole),
            None => seq![],
        },
        None => {
            let is_plural = plural_spec(e) && !ap.flags.force_singular && !ap.flags.extract_group_member;
            if contains_viewer_spec(e, viewer) && !ap.flags.extract_group_member {
                viewer_word(ctx.stance, ViewerNameFlags {
                    is_plural,
                    is_possessive: ap.flags.is_possessive,
                    is_capitalized: cap_whole,
                    is_obj: opt_str_view(ap.p_type) == Some("obj"@),
                })
            } else {
                single_entity_text(ctx, e, viewer, name, ap, cap_whole, after_possessive, is_plural)
            }
        },
    }
}

/// Writes a resolved entity (see `resolved_text`).
fn write_resolved(ctx: &RenderContext, raw_output: &mut String, entity: &TemplateEntity, effective_viewer: &str, name: String, ap: &EntityRefParams, after_possessive: bool, pre_resolved: &KeyMap<&TemplateEntity>)
    ensures
        final(raw_output)@ == old(raw_output)@ + resolved_text(*ctx, *entity, effective_viewer@, name@, *ap, after_possessive, *pre_resolved),
{
    let cap_whole = crate::engine::should_capitalize_whole_tag(ap);
    match entity.group_members() {
        Some(members) => {
            render_group_entity(ctx, raw_output, entity, members, effective_viewer, ap, cap_whole, after_possessive, pre_resolved);
            return;
        },
        None => {},
    }
    let is_plural = entity.is_plural() && !ap.flags.force_singular && !ap.flags.extract_group_member;
    if entity.contains_viewer(effective_viewer) && !ap.flags.extract_group_member {
        let is_obj = match ap.p_type {
            Some(p) => str_eq(p, "obj"),
            None => false,
        };
        let v_flags = ViewerNameFlags { is_plural, is_possessive: ap.flags.is_possessive, is_capitalized: cap_whole, is_obj };
        let word = viewer_name(ctx.stance, v_flags);
        let mut all = chars_of(raw_output.as_str());
        append_str(&mut all, word);
        *raw_output = string_of(&all);
        return;
    }
    PerspectiveEngine::render_single_entity(ctx, raw_output, entity, effective_viewer, name, ap, cap_whole, after_possessive, is_plural);
}

/// Upgrades an indefinite article (see `upgraded_article`).
fn upgrade_article<'a>(article: Option<&'a str>, flags: TagFlags, seen: bool, ordinal: Option<usize>) -> (r: Option<&'a str>)
    ensures
        r == upgraded_article(article, flags, seen, ordinal),
{
    if !flags.no_smart && article.is_some() && flags.article_indefinite {
        if seen {
            return Some(if flags.article_capitalized { "The" } else { "the" });
        }
        match ordinal {
            Some(o) => {
                if o == 2 {
                    return Some(if flags.article_capitalized { "Another" } else { "another" });
                }
            },
            None => {},
        }
    }
    article
}

/// What rendering a resolved entity does: the name and ordinal come from
/// `display_result`, the entity becomes the last mentioned and is tracked under that name,
/// and its text (`resolved_text`) is written with the upgraded article.
#[verifier::opaque]
pub open spec fn resolved_step<'a>(
    ctx0: RenderContext,
    ctx1: RenderContext,
    out0: Seq<char>,
    out1: Seq<char>,
    params: EntityRefParams<'a>,
    e: TemplateEntity,
    viewer: Seq<char>,
    article: Option<&'a str>,
    p_type: Option<&'a str>,
    flags: TagFlags,
    after_possessive: bool,
    future: Seq<Seq<char>>,
    pre: KeyMap<&TemplateEntity>,
) -> bool {
    let (name, ordinal, records) = display_result(ctx0, e, params, viewer, future, pre);
    let ap = resolved_params(params, upgraded_article(article, flags, already_seen(ctx0, params.key@), ordinal), p_type, flags, after_possessive, ordinal);
    &&& same_setup(ctx1, ctx0)
    &&& ordinals_model(ctx1.ordinals@) == records
    &&& history_view(ctx1.ordinal_history@) == (if params.flags.no_smart {
            history_view(ctx0.ordinal_history@)
        } else {
            history_view(ctx0.ordinal_history@).push((params.key@, held_ordinal(ordinal)))
        })
    &&& (recent_views(ctx1.recent_entities@), opt_view(ctx1.last_mentioned), opt_view(ctx1.active_subject)) == evicted(
        ctx0.anaphora_limit as nat,
        after_tracking(recent_views(ctx0.recent_entities@), params.key@, e, ctx0.viewer_id@, adjective_words(opt_str_view(params.adjectives)), Some(name)),
        Some(params.key@),
        opt_view(ctx0.active_subject),
    )
    &&& out1 == out0 + resolved_text(ctx1, e, viewer, name, ap, after_possessive, pre)
}

impl PerspectiveEngine {
    /// Renders an entity under the name chosen for it (see `resolved_step`).
    pub fn render_resolved_entity<'a, 'c>(
        ctx: &mut RenderContext<'c>,
        raw_output: &mut String,
        params: &EntityRefParams<'a>,
        entity: &TemplateEntity,
        effective_viewer: &str,
        article_to_use: Option<&'a str>,
        actual_p_type: Option<&'a str>,
        active_flags: TagFlags,
        after_possessive: bool,
        future_keys: &Vec<&str>,
        pre_resolved: &KeyMap<&'c TemplateEntity>,
    )
        requires
            forall|k: int| 0 <= k < old(ctx).ordinals@.len() ==> (#[trigger] old(ctx).ordinals@[k]).1.next_ordinal < usize::MAX,
        ensures
            resolved_step(*old(ctx), *final(ctx), old(raw_output)@, final(raw_output)@, *params, *entity, effective_viewer@, article_to_use, actual_p_type, active_flags, after_possessive, str_views(future_keys@), *pre_resolved),
    {
        proof {
            reveal(resolved_step);
        }
        let ghost ctx0 = *ctx;
        let (name, ordinal) = resolve_display_name(ctx, entity, params, effective_viewer, future_keys, pre_resolved);
        let seen = recent_position(&ctx.recent_entities, params.key).is_some();
        assert(seen == already_seen(ctx0, params.key@));
        let article = upgrade_article(article_to_use, active_flags, seen, ordinal);
        update_memory(&mut ctx.last_mentioned, params.key);
        track_recent_entity(ctx, params.key, entity, params.adjectives, Some(name.as_str()));
        let ap = EntityRefParams {
            key: params.key,
            article,
            p_type: actual_p_type,
            owner_key: None,
            owner_flags: TagFlags::empty(),
            adjectives: if after_possessive { None } else { params.adjectives },
            flags: active_flags,
            ordinal,
        };
        write_resolved(ctx, raw_output, entity, effective_viewer, name, &ap, after_possessive, pre_resolved);
    }
}

} // verus!
