//! How a group of entities is written: its members listed with an Oxford comma, and the
//! viewer among them spoken of in the viewer's own person.
use vstd::prelude::*;
use crate::engine::{
    opt_str_view, possessive_suffix, resolve_pre, resolved_entity, EntityRefParams,
    PerspectiveEngine,
};
use crate::grammar::{
    article_resolution, capitalize_first, capitalized, capitalized_if, format_oxford_list,
    oxford_list, pronoun_case, pronoun_forms, push_capitalized_if, resolve_article, resolve_pronoun,
    string_views, ArticleFlags,
};
use crate::keymap::KeyMap;
use crate::models::{
    collective_spec, contains_viewer_spec, flat_leaves, flatten_group, gender_spec,
    is_same_entity, last_viewer_leaf, member_views, partition_group, plural_spec, proper_spec,
    visible_members, ActorStance, Gender, RenderContext, TemplateEntity,
};
use crate::text::{append_str, chars_of, str_eq, str_to_lowercase, string_of, unicode_lowercase};

verus! {

// ---------------------------------------------------------------------------
// Gender of a group
// ---------------------------------------------------------------------------

/// A gender as it is used for one entity: plural counts as neutral.
pub open spec fn singular_gender(g: Gender) -> Gender {
    if g == Gender::Plural {
        Gender::Neutral
    } else {
        g
    }
}

/// The singular gender that all the leaves share, or neutral when they differ or there
/// are none.
pub open spec fn shared_singular_gender(f: Seq<TemplateEntity>) -> Gender {
    if f.len() > 0 && forall|i: int| 0 <= i < f.len() ==> singular_gender(gender_spec(#[trigger] f[i])) == singular_gender(gender_spec(f[0])) {
        singular_gender(gender_spec(f[0]))
    } else {
        Gender::Neutral
    }
}

/// The gender by which a group is referred to in the singular (see `shared_singular_gender`).
pub fn determine_group_singular_gender(members: &Vec<TemplateEntity>) -> (r: Gender)
    ensures
        r == shared_singular_gender(flat_leaves(members@, 0)),
{
    let mut flat: Vec<&TemplateEntity> = Vec::new();
    flatten_group(members, &mut flat, 0);
    let ghost f = flat@.map_values(|x: &TemplateEntity| *x);
    assert(f =~= flat_leaves(members@, 0));
    if flat.len() == 0 {
        return Gender::Neutral;
    }
    let g0 = flat[0].gender();
    let shared = if g0 == Gender::Plural { Gender::Neutral } else { g0 };
    let mut i: usize = 1;
    while i < flat.len()
        invariant
            1 <= i <= flat.len(),
            f == flat@.map_values(|x: &TemplateEntity| *x),
            f == flat_leaves(members@, 0),
            shared == singular_gender(gender_spec(f[0])),
            forall|j: int| 0 <= j < i ==> singular_gender(gender_spec(#[trigger] f[j])) == shared,
        decreases flat.len() - i,
    {
        let g = flat[i].gender();
        let s = if g == Gender::Plural { Gender::Neutral } else { g };
        if s != shared {
            assert(singular_gender(gender_spec(f[i as int])) != singular_gender(gender_spec(f[0])));
            return Gender::Neutral;
        }
        i = i + 1;
    }
    shared
}

// ---------------------------------------------------------------------------
// The viewer inside a group
// ---------------------------------------------------------------------------

/// The reflexive pronoun of a pronoun set.
fn reflexive_pronoun(gender: Gender, is_viewer: bool, is_plural: bool, stance: ActorStance, fallback: &'static str) -> (r: &'static str)
    ensures
        r@ == pronoun_forms(gender, is_viewer, is_plural, stance)[4],
{
    proof {
        reveal_strlit("reflex");
        reveal_strlit("subj");
        reveal_strlit("obj");
        reveal_strlit("poss");
        reveal_strlit("abs_poss");
        assert("reflex"@.len() == 6);
        assert("subj"@.len() == 4);
        assert("reflex"@ != "subj"@);
        assert("reflex"@ != "obj"@);
        assert("reflex"@ != "poss"@);
        assert("reflex"@ != "abs_poss"@);
        assert(pronoun_case("reflex"@) == Some(4int));
    }
    match resolve_pronoun(gender, "reflex", is_viewer, is_plural, stance) {
        Ok(s) => s,
        Err(_) => fallback,
    }
}

/// The word that stands for the viewer before the other members of a group, if the
/// stance speaks of the viewer in person: in the second person "you" (or "your",
/// "yourself"); in the first person, a plural viewer alone is "we" ("our", "us",
/// "ourselves"), and beside others is addressed as "you" and listed again as "I" at the end.
pub open spec fn viewer_prefix(stance: ActorStance, viewer_plural: bool, is_possessive: bool, visible_empty: bool, active: bool, is_objective: bool) -> Option<Seq<char>> {
    if stance == ActorStance::SecondPerson {
        if is_possessive {
            Some("your"@)
        } else if is_objective && active {
            Some(pronoun_forms(Gender::Neutral, true, viewer_plural, ActorStance::SecondPerson)[4])
        } else {
            Some("you"@)
        }
    } else if stance == ActorStance::FirstPerson && viewer_plural {
        if visible_empty {
            if is_possessive {
                Some("our"@)
            } else if is_objective {
                if active {
                    Some(pronoun_forms(Gender::Neutral, true, true, ActorStance::FirstPerson)[4])
                } else {
                    Some("us"@)
                }
            } else {
                Some("we"@)
            }
        } else if is_possessive {
            Some("your"@)
        } else if is_objective && active {
            Some(pronoun_forms(Gender::Neutral, true, false, ActorStance::SecondPerson)[4])
        } else {
            Some("you"@)
        }
    } else {
        None
    }
}

/// Whether the viewer's word ends the list with a possessive pronoun.
pub open spec fn prefix_ends_possessive(stance: ActorStance, viewer_plural: bool, is_possessive: bool, visible_empty: bool) -> bool {
    is_possessive && visible_empty && (stance == ActorStance::SecondPerson || (stance == ActorStance::FirstPerson && viewer_plural))
}

/// Whether a plural first-person viewer is split into "you" and "I" around the others.
pub open spec fn prefix_decomposes(stance: ActorStance, viewer_plural: bool, visible_empty: bool) -> bool {
    stance == ActorStance::FirstPerson && viewer_plural && !visible_empty
}

/// The word that stands for the viewer before the other members (see `viewer_prefix`);
/// records whether the list now ends with a possessive pronoun and whether the viewer was
/// split into "you" and "I".
pub fn format_group_viewer_prefix(
    ctx: &RenderContext,
    viewer: &TemplateEntity,
    params: &EntityRefParams,
    visible_is_empty: bool,
    viewer_is_active_subject: bool,
    is_objective: bool,
    ends_with_possessive_pronoun: &mut bool,
    decomposed_we: &mut bool,
) -> (r: Option<&'static str>)
    ensures
        opt_str_view(r) == viewer_prefix(ctx.stance, plural_spec(*viewer), params.flags.is_possessive, visible_is_empty, viewer_is_active_subject, is_objective),
        *final(ends_with_possessive_pronoun) == (*old(ends_with_possessive_pronoun) || prefix_ends_possessive(ctx.stance, plural_spec(*viewer), params.flags.is_possessive, visible_is_empty)),
        *final(decomposed_we) == (*old(decomposed_we) || prefix_decomposes(ctx.stance, plural_spec(*viewer), visible_is_empty)),
{
    let poss = params.flags.is_possessive;
    if ctx.stance == ActorStance::SecondPerson {
        if poss {
            if visible_is_empty {
                *ends_with_possessive_pronoun = true;
            }
            return Some("your");
        } else if is_objective && viewer_is_active_subject {
            return Some(reflexive_pronoun(Gender::Neutral, true, viewer.is_plural(), ctx.stance, "yourself"));
        }
        return Some("you");
    } else if ctx.stance == ActorStance::FirstPerson && viewer.is_plural() {
        if visible_is_empty {
            if poss {
                *ends_with_possessive_pronoun = true;
                return Some("our");
            } else if is_objective {
                if viewer_is_active_subject {
                    return Some(reflexive_pronoun(Gender::Neutral, true, true, ctx.stance, "ourselves"));
                }
                return Some("us");
            }
            return Some("we");
        }
        *decomposed_we = true;
        if poss {
            return Some("your");
        } else if is_objective && viewer_is_active_subject {
            return Some(reflexive_pronoun(Gender::Neutral, true, false, ActorStance::SecondPerson, "yourself"));
        }
        return Some("you");
    }
    None
}

/// The word that stands for a first-person viewer at the end of a group: "my", "myself",
/// "me" or "I".
pub open spec fn viewer_suffix(is_possessive: bool, active: bool, is_objective: bool) -> Seq<char> {
    if is_possessive {
        "my"@
    } else if is_objective {
        if active {
            pronoun_forms(Gender::Neutral, true, false, ActorStance::FirstPerson)[4]
        } else {
            "me"@
        }
    } else {
        "I"@
    }
}

/// The word that stands for a first-person viewer at the end of a group (see
/// `viewer_suffix`); records that the list ends with a possessive pronoun when it does.
pub fn format_group_viewer_suffix(
    is_possessive: bool,
    viewer_is_active_subject: bool,
    is_objective: bool,
    ends_with_possessive_pronoun: &mut bool,
) -> (r: &'static str)
    ensures
        r@ == viewer_suffix(is_possessive, viewer_is_active_subject, is_objective),
        *final(ends_with_possessive_pronoun) == (*old(ends_with_possessive_pronoun) || is_possessive),
{
    if is_possessive {
        *ends_with_possessive_pronoun = true;
        "my"
    } else if is_objective {
        if viewer_is_active_subject {
            reflexive_pronoun(Gender::Neutral, true, false, ActorStance::FirstPerson, "myself")
        } else {
            "me"
        }
    } else {
        "I"
    }
}

// ---------------------------------------------------------------------------
// The other members
// ---------------------------------------------------------------------------

/// How one member of a group is written.
#[derive(Clone, Copy, Debug, PartialEq, Eq, Structural)]
pub struct GroupMemberFlags {
    /// The group follows a possessive word.
    pub after_possessive: bool,
    /// The member is the first item of the list.
    pub first_visible_item: bool,
    /// Every member takes its own possessive ending.
    pub distribute_possessives: bool,
    /// The member is the active subject and is written as a reflexive pronoun.
    pub is_reflexive: bool,
}

/// How one member of a group is written, and the article put before it.
pub struct GroupMemberFormatConfig<'a> {
    /// The options of the member.
    pub flags: GroupMemberFlags,
    /// The article written in the tag, as used for this member.
    pub article_to_use: Option<&'a str>,
}

/// The article options for a member of a group.
pub open spec fn member_article_flags(member: TemplateEntity, viewer: Seq<char>, params: EntityRefParams, flags: GroupMemberFlags) -> ArticleFlags {
    ArticleFlags {
        is_proper_noun: proper_spec(member, viewer),
        is_plural: plural_spec(member),
        force_article: params.flags.force_article,
        after_possessive: flags.after_possessive,
        is_capitalized: params.flags.article_capitalized && flags.first_visible_item,
    }
}

/// The adjectives of the tag with a trailing space, before the first member only.
pub open spec fn adjective_prefix(params: EntityRefParams, first: bool) -> Seq<char> {
    match params.adjectives {
        Some(a) => if first && a@.len() > 0 { a@ + " "@ } else { seq![] },
        None => seq![],
    }
}

/// The ordinal of the tag as a number.
pub open spec fn ordinal_nat(o: Option<usize>) -> Option<nat> {
    match o {
        Some(n) => Some(n as nat),
        None => None,
    }
}

/// How a member of a group is written: as a reflexive pronoun when it is the active
/// subject of an objective reference; otherwise its name, after the article (resolved for
/// the member) and the tag's adjectives when they apply; with its own possessive ending
/// when possessives are distributed.
pub open spec fn member_text(
    stance: ActorStance,
    threshold: nat,
    entity: TemplateEntity,
    member: TemplateEntity,
    name: Seq<char>,
    viewer: Seq<char>,
    params: EntityRefParams,
    flags: GroupMemberFlags,
    article: Option<Seq<char>>,
) -> Seq<char> {
    let first = flags.first_visible_item;
    let base = if flags.is_reflexive {
        let reflex = pronoun_forms(gender_spec(member), false, plural_spec(member), stance)[4];
        if (params.flags.is_capitalized || params.flags.article_capitalized) && first {
            capitalized(reflex)
        } else {
            reflex
        }
    } else {
        let adj = adjective_prefix(params, first);
        let resolved = match article {
            Some(a) => article_resolution(a, name, ordinal_nat(params.ordinal), collective_spec(entity), threshold, member_article_flags(member, viewer, params, flags)),
            None => None,
        };
        match resolved {
            Some(ra) => ra + adj + name,
            None => if adj.len() > 0 {
                (if params.flags.article_capitalized && first { capitalized(adj) } else { adj }) + name
            } else {
                name
            },
        }
    };
    if flags.distribute_possessives {
        base + possessive_suffix(base, plural_spec(member))
    } else {
        base
    }
}

/// Writes one member of a group (see `member_text`).
pub fn format_group_member(
    ctx: &RenderContext,
    entity: &TemplateEntity,
    member: &TemplateEntity,
    name: String,
    effective_viewer: &str,
    params: &EntityRefParams,
    config: &GroupMemberFormatConfig,
) -> (r: String)
    ensures
        r@ == member_text(ctx.stance, ctx.ordinal_word_threshold as nat, *entity, *member, name@, effective_viewer@, *params, config.flags, opt_str_view(config.article_to_use)),
{
    let first = config.flags.first_visible_item;
    let base: String = if config.flags.is_reflexive {
        let reflex = reflexive_pronoun(member.gender(), false, member.is_plural(), ctx.stance, "itself");
        if (params.flags.is_capitalized || params.flags.article_capitalized) && first {
            capitalize_first(reflex)
        } else {
            String::from_str(reflex)
        }
    } else {
        let article_flags = ArticleFlags {
            is_proper_noun: member.is_proper_noun_for(effective_viewer),
            is_plural: member.is_plural(),
            force_article: params.flags.force_article,
            after_possessive: config.flags.after_possessive,
            is_capitalized: params.flags.article_capitalized && first,
        };
        let mut adj: Vec<char> = Vec::new();
        if first {
            match params.adjectives {
                Some(a) => {
                    if a.unicode_len() > 0 {
                        adj = chars_of(a);
                        adj.push(' ');
                    }
                },
                None => {},
            }
        }
        proof {
            reveal_strlit(" ");
        }
        assert(adj@ =~= adjective_prefix(*params, first));
        let collective = entity.collective_noun();
        let resolved = match config.article_to_use {
            Some(art) => resolve_article(
                art,
                name.as_str(),
                params.ordinal,
                match &collective { Some(c) => Some(c.as_str()), None => None },
                ctx.ordinal_word_threshold,
                article_flags,
            ),
            None => None,
        };
        match resolved {
            Some(ra) => {
                let mut out = chars_of(ra.as_str());
                crate::text::append_chars(&mut out, &adj);
                append_str(&mut out, name.as_str());
                string_of(&out)
            },
            None => {
                if adj.len() > 0 {
                    let mut out = if params.flags.article_capitalized && first {
                        crate::grammar::capitalize_chars(&adj)
                    } else {
                        adj
                    };
                    append_str(&mut out, name.as_str());
                    string_of(&out)
                } else {
                    name
                }
            },
        }
    };
    if config.flags.distribute_possessives {
        let suffix = PerspectiveEngine::get_possessive_suffix(base.as_str(), member.is_plural());
        let mut out = chars_of(base.as_str());
        append_str(&mut out, suffix);
        string_of(&out)
    } else {
        base
    }
}

// ---------------------------------------------------------------------------
// The whole group
// ---------------------------------------------------------------------------

/// The entity that is the active subject of the clause, if any.
pub open spec fn active_subject_entity(ctx: RenderContext, pre: KeyMap<&TemplateEntity>) -> Option<TemplateEntity> {
    match ctx.active_subject {
        Some(k) => resolved_entity(ctx, pre, k@),
        None => None,
    }
}

/// The options of the `j`-th visible member of a group.
pub open spec fn member_flags(visible: Seq<(TemplateEntity, Seq<char>)>, j: int, no_viewer: bool, after_possessive: bool, distribute: bool, active: Option<TemplateEntity>, is_objective: bool) -> GroupMemberFlags {
    GroupMemberFlags {
        after_possessive,
        first_visible_item: no_viewer && j == 0,
        distribute_possessives: distribute,
        is_reflexive: is_objective && (match active {
            Some(a) => a.id@ == visible[j].0.id@,
            None => false,
        }),
    }
}

/// The article used for a member: the tag's own before the first item, in lower case after.
pub open spec fn member_article(params: EntityRefParams, first: bool) -> Option<Seq<char>> {
    if first {
        opt_str_view(params.article)
    } else {
        match params.article {
            Some(a) => Some(unicode_lowercase(a@)),
            None => None,
        }
    }
}

/// The texts of the visible members of a group, in order (see `member_text`).
pub open spec fn member_texts(ctx: RenderContext, entity: TemplateEntity, visible: Seq<(TemplateEntity, Seq<char>)>, viewer: Seq<char>, params: EntityRefParams, after_possessive: bool, distribute: bool, active: Option<TemplateEntity>, is_objective: bool, no_viewer: bool) -> Seq<Seq<char>> {
    Seq::new(visible.len(), |j: int| member_text(
        ctx.stance,
        ctx.ordinal_word_threshold as nat,
        entity,
        visible[j].0,
        visible[j].1,
        viewer,
        params,
        member_flags(visible, j, no_viewer, after_possessive, distribute, active, is_objective),
        member_article(params, no_viewer && j == 0),
    ))
}

/// Writes the visible members of a group (see `member_texts`).
fn format_members(
    ctx: &RenderContext,
    entity: &TemplateEntity,
    visible: &Vec<(&TemplateEntity, String)>,
    effective_viewer: &str,
    params: &EntityRefParams,
    after_possessive: bool,
    distribute: bool,
    active: Option<&TemplateEntity>,
    is_objective: bool,
    no_viewer: bool,
) -> (r: Vec<String>)
    ensures
        string_views(r@) == member_texts(*ctx, *entity, member_views(visible@), effective_viewer@, *params, after_possessive, distribute, match active { Some(a) => Some(*a), None => None }, is_objective, no_viewer),
{
    let ghost vis = member_views(visible@);
    let ghost act: Option<TemplateEntity> = match active { Some(a) => Some(*a), None => None };
    let ghost texts = member_texts(*ctx, *entity, vis, effective_viewer@, *params, after_possessive, distribute, act, is_objective, no_viewer);
    let lower_article: Option<String> = match params.article {
        Some(a) => Some(str_to_lowercase(a)),
        None => None,
    };
    let mut formatted: Vec<String> = Vec::new();
    let mut j: usize = 0;
    while j < visible.len()
        invariant
            j <= visible.len(),
            vis == member_views(visible@),
            texts == member_texts(*ctx, *entity, vis, effective_viewer@, *params, after_possessive, distribute, act, is_objective, no_viewer),
            string_views(formatted@) == texts.take(j as int),
            act == (match active { Some(a) => Some(*a), None => None::<TemplateEntity> }),
            match params.article {
                Some(a) => lower_article matches Some(l) && l@ == unicode_lowercase(a@),
                None => lower_article is None,
            },
        decreases visible.len() - j,
    {
        let first = no_viewer && j == 0;
        let member = visible[j].0;
        assert(vis[j as int] == (*member, visible@[j as int].1@));
        let article_to_use: Option<&str> = if first {
            params.article
        } else {
            match &lower_article {
                Some(s) => Some(s.as_str()),
                None => None,
            }
        };
        let member_is_active_subj = match active {
            Some(a) => is_same_entity(a, member),
            None => false,
        };
        let flags = GroupMemberFlags {
            after_possessive,
            first_visible_item: first,
            distribute_possessives: distribute,
            is_reflexive: is_objective && member_is_active_subj,
        };
        assert(flags == member_flags(vis, j as int, no_viewer, after_possessive, distribute, act, is_objective));
        let config = GroupMemberFormatConfig { flags, article_to_use };
        assert(opt_str_view(config.article_to_use) == member_article(*params, first));
        let text = format_group_member(ctx, entity, member, visible[j].1.clone(), effective_viewer, params, &config);
        let ghost before = string_views(formatted@);
        formatted.push(text);
        assert(string_views(formatted@) =~= before.push(text@));
        assert(texts.take(j + 1) =~= texts.take(j as int).push(texts[j as int]));
        j = j + 1;
    }
    assert(texts.take(j as int) =~= texts);
    formatted
}

/// Whether the reference asks for the object form.
pub open spec fn is_objective_ref(params: EntityRefParams) -> bool {
    match params.p_type {
        Some(p) => p@ == "obj"@,
        None => false,
    }
}

/// The text of a group reference before any capitalisation of the whole, or `None` when
/// no member can be shown: the viewer's word (see `viewer_prefix`), every visible member
/// (see `member_text`), and "I" for a first-person viewer that is singular or split, joined
/// with "and" (or "or" when one member is extracted), followed by the group's possessive
/// ending when a possessive is asked for and neither a pronoun nor the members carry it.
pub open spec fn group_text(ctx: RenderContext, entity: TemplateEntity, members: Seq<TemplateEntity>, viewer: Seq<char>, params: EntityRefParams, after_possessive: bool, pre: KeyMap<&TemplateEntity>) -> Option<Seq<char>> {
    let f = flat_leaves(members, 0);
    let vleaf = last_viewer_leaf(f, viewer);
    let visible = visible_members(f, viewer);
    if vleaf is None && visible.len() == 0 {
        None
    } else {
        let active = active_subject_entity(ctx, pre);
        let viewer_active = match active {
            Some(a) => contains_viewer_spec(a, viewer),
            None => false,
        };
        let is_obj = is_objective_ref(params);
        let poss = params.flags.is_possessive;
        let vplural = match vleaf {
            Some(vl) => plural_spec(vl),
            None => false,
        };
        let head: Seq<Seq<char>> = if vleaf is Some {
            match viewer_prefix(ctx.stance, vplural, poss, visible.len() == 0, viewer_active, is_obj) {
                Some(p) => seq![p],
                None => seq![],
            }
        } else {
            seq![]
        };
        let ends0 = vleaf is Some && prefix_ends_possessive(ctx.stance, vplural, poss, visible.len() == 0);
        let decomposed = vleaf is Some && prefix_decomposes(ctx.stance, vplural, visible.len() == 0);
        let append_my = vleaf is Some && ctx.stance == ActorStance::FirstPerson && (!vplural || decomposed);
        let distribute = vleaf is Some && poss;
        let no_viewer = vleaf is None;
        let texts = member_texts(ctx, entity, visible, viewer, params, after_possessive, distribute, active, is_obj, no_viewer);
        let tail: Seq<Seq<char>> = if append_my { seq![viewer_suffix(poss, viewer_active, is_obj)] } else { seq![] };
        let ends = ends0 || (append_my && poss);
        let conj = if params.flags.extract_group_member { "or"@ } else { "and"@ };
        let list = oxford_list(head + texts + tail, conj);
        Some(if poss && !ends && !distribute { list + possessive_suffix(list, plural_spec(entity)) } else { list })
    }
}

/// Writes a group reference to the output (see `group_text`), capitalised when
/// `cap_whole` asks for it; writes nothing when no member can be shown.
pub fn render_group_entity<'a>(
    ctx: &RenderContext<'a>,
    raw_output: &mut String,
    entity: &TemplateEntity,
    members: &Vec<TemplateEntity>,
    effective_viewer: &str,
    params: &EntityRefParams,
    cap_whole: bool,
    after_possessive: bool,
    pre_resolved: &KeyMap<&'a TemplateEntity>,
)
    ensures
        final(raw_output)@ == old(raw_output)@ + match group_text(*ctx, *entity, members@, effective_viewer@, *params, after_possessive, *pre_resolved) {
            Some(t) => capitalized_if(t, cap_whole),
            None => Seq::<char>::empty(),
        },
{
    let ghost viewer = effective_viewer@;
    let ghost f = flat_leaves(members@, 0);
    let (viewer_entity, visible) = partition_group(members, effective_viewer);
    let ghost vis = visible_members(f, viewer);
    if viewer_entity.is_none() && visible.len() == 0 {
        assert(raw_output@ =~= raw_output@ + Seq::<char>::empty());
        return;
    }
    let active: Option<&TemplateEntity> = match &ctx.active_subject {
        Some(k) => resolve_pre(ctx, pre_resolved, k.as_str()),
        None => None,
    };
    let ghost act = active_subject_entity(*ctx, *pre_resolved);
    assert(match active { Some(a) => act == Some(*a), None => act is None });
    let viewer_is_active_subject = match active {
        Some(a) => a.contains_viewer(effective_viewer),
        None => false,
    };
    let is_objective = match params.p_type {
        Some(p) => str_eq(p, "obj"),
        None => false,
    };
    let poss = params.flags.is_possessive;
    let mut ends = false;
    let mut decomposed = false;
    let mut formatted: Vec<String> = Vec::new();
    match viewer_entity {
        Some(v) => {
            match format_group_viewer_prefix(ctx, v, params, visible.len() == 0, viewer_is_active_subject, is_objective, &mut ends, &mut decomposed) {
                Some(p) => {
                    formatted.push(String::from_str(p));
                },
                None => {},
            }
        },
        None => {},
    }
    let ghost head = string_views(formatted@);
    let ghost vleaf = last_viewer_leaf(f, viewer);
    let ghost vplural = match vleaf { Some(vl) => plural_spec(vl), None => false };
    let ghost viewer_active = match act { Some(a) => contains_viewer_spec(a, viewer), None => false };
    assert(viewer_is_active_subject == viewer_active);
    assert(is_objective == is_objective_ref(*params));
    assert(viewer_entity is Some == vleaf is Some);
    assert(viewer_entity matches Some(v) ==> plural_spec(*v) == vplural);
    assert(head == (if vleaf is Some {
            match viewer_prefix(ctx.stance, vplural, poss, vis.len() == 0, viewer_active, is_objective) {
                Some(p) => seq![p],
                None => Seq::<Seq<char>>::empty(),
            }
        } else {
            Seq::<Seq<char>>::empty()
        }));
    assert(ends == (vleaf is Some && prefix_ends_possessive(ctx.stance, vplural, poss, vis.len() == 0)));
    assert(decomposed == (vleaf is Some && prefix_decomposes(ctx.stance, vplural, vis.len() == 0)));
    let will_append_my = match viewer_entity {
        Some(v) => ctx.stance == ActorStance::FirstPerson && (!v.is_plural() || decomposed),
        None => false,
    };
    let distribute = viewer_entity.is_some() && poss;
    let no_viewer = viewer_entity.is_none();
    let members_text = format_members(ctx, entity, &visible, effective_viewer, params, after_possessive, distribute, active, is_objective, no_viewer);
    let ghost texts = string_views(members_text@);
    let mut m: usize = 0;
    while m < members_text.len()
        invariant
            m <= members_text.len(),
            texts == string_views(members_text@),
            string_views(formatted@) == head + texts.take(m as int),
        decreases members_text.len() - m,
    {
        let ghost before = string_views(formatted@);
        formatted.push(members_text[m].clone());
        assert(string_views(formatted@) =~= before.push(texts[m as int]));
        assert(head + texts.take(m + 1) =~= (head + texts.take(m as int)).push(texts[m as int]));
        m = m + 1;
    }
    assert(texts.take(m as int) =~= texts);
    if will_append_my {
        let suffix = format_group_viewer_suffix(poss, viewer_is_active_subject, is_objective, &mut ends);
        let ghost before = string_views(formatted@);
        formatted.push(String::from_str(suffix));
        assert(string_views(formatted@) =~= before.push(suffix@));
    }
    let conjunction = if params.flags.extract_group_member { "or" } else { "and" };
    let list = format_oxford_list(formatted, conjunction);
    let mut out = chars_of(list.as_str());
    if poss && !ends && !distribute {
        append_str(&mut out, PerspectiveEngine::get_possessive_suffix(list.as_str(), entity.is_plural()));
    }
    let text = string_of(&out);
    proof {
        let gt = group_text(*ctx, *entity, members@, viewer, *params, after_possessive, *pre_resolved);
        assert(vis == visible_members(f, viewer));
        assert(gt is Some);
        assert(string_views(formatted@) =~= head + texts + (if will_append_my { seq![viewer_suffix(poss, viewer_is_active_subject, is_objective)] } else { Seq::<Seq<char>>::empty() }));
        assert(gt == Some(text@));
    }
    push_capitalized_if(raw_output, text.as_str(), cap_whole);
}

} // verus!
