//! Rendering a verb tag: binding the verb to its subject, then conjugating it for the
//! subject's person and number, the stance and the tense, or taking a form the tag forces.
use vstd::prelude::*;
use crate::context::{evicted, same_setup};
use crate::engine::{
    adjective_words, after_tracking, effective_viewer_id, track_recent_entity, update_memory,
    PerspectiveEngine,
};
use crate::grammar::{
    conjugate_verb, conjugation, format_oxford_list, format_verb, formatted_verb, oxford_list, string_views,
    VerbDictionary,
};
use crate::keymap::KeyMap;
use crate::models::{
    contains_viewer_spec, opt_view, plural_spec, recent_views, ActorStance, RenderContext,
    TemplateEntity, Tense, NULL_VIEWER,
};
use crate::narrative::{find_entity, lookup_error, lookup_error_message, named_entity};
use crate::parser::{TagFlags, TagSegment};
use crate::tags::TagToken;
use crate::text::{append_str, chars_of, str_to_lowercase, string_of, unicode_lowercase};

verus! {

// ---------------------------------------------------------------------------
// The subject
// ---------------------------------------------------------------------------

/// How a verb agrees with its subject: whether the subject is the viewer, and whether it is
/// plural. Without a subject it is neither. A group's member extracted by the tag is neither
/// the viewer nor plural, and a forced singular is not plural.
pub open spec fn verb_agreement(ctx: RenderContext, subject: Option<TemplateEntity>, flags: TagFlags) -> (bool, bool) {
    match subject {
        None => (false, false),
        Some(e) => {
            let viewer = if flags.force_3rd_person || ctx.stance == ActorStance::ThirdPerson {
                NULL_VIEWER@
            } else {
                ctx.viewer_id@
            };
            let extract = flags.extract_group_member && e.members is Some;
            (contains_viewer_spec(e, viewer) && !extract, plural_spec(e) && !flags.force_singular && !extract)
        },
    }
}

/// What binding a verb to its subject does: without a subject nothing changes; a key that
/// names no entity is an error (see `lookup_error`); otherwise the subject becomes both the active subject and
/// the last mentioned entity, is tracked in the memory, and the agreement is
/// `verb_agreement`.
pub open spec fn subject_step(
    ctx0: RenderContext,
    ctx1: RenderContext,
    subject_key: Option<Seq<char>>,
    flags: TagFlags,
    pre: KeyMap<&TemplateEntity>,
    r: Result<(bool, bool), String>,
) -> bool {
    match subject_key {
        None => ctx1 == ctx0 && r == Ok::<(bool, bool), String>(verb_agreement(ctx0, None, flags)),
        Some(k) => match named_entity(ctx0, pre, k) {
            None => ctx1 == ctx0 && (r matches Err(m) && m@ == lookup_error(ctx0, k)),
            Some(e) => {
                &&& r == Ok::<(bool, bool), String>(verb_agreement(ctx0, Some(e), flags))
                &&& same_setup(ctx1, ctx0)
                &&& ctx1.ordinals == ctx0.ordinals
                &&& ctx1.ordinal_history == ctx0.ordinal_history
                &&& (recent_views(ctx1.recent_entities@), opt_view(ctx1.last_mentioned), opt_view(ctx1.active_subject)) == evicted(
                    ctx0.anaphora_limit as nat,
                    after_tracking(recent_views(ctx0.recent_entities@), k, e, ctx0.viewer_id@, adjective_words(None), None),
                    Some(k),
                    Some(k),
                )
            },
        },
    }
}

/// Binds a verb to its subject (see `subject_step`).
pub(crate) fn bind_verb_subject<'c>(
    ctx: &mut RenderContext<'c>,
    subject_key: Option<&str>,
    flags: TagFlags,
    pre_resolved: &KeyMap<&'c TemplateEntity>,
) -> (r: Result<(bool, bool), String>)
    ensures
        subject_step(*old(ctx), *final(ctx), match subject_key { Some(k) => Some(k@), None => None }, flags, *pre_resolved, r),
{
    let key = match subject_key {
        Some(k) => k,
        None => {
            return Ok((false, false));
        },
    };
    let entity = match find_entity(ctx, pre_resolved, key) {
        Some(e) => e,
        None => {
            return Err(lookup_error_message(ctx, key));
        },
    };
    let ghost ctx0 = *ctx;
    let effective_viewer = effective_viewer_id(ctx, flags.force_3rd_person);
    let mut is_viewer = entity.contains_viewer(effective_viewer);
    let mut is_plural = entity.is_plural();
    let is_group = entity.group_members().is_some();
    update_memory(&mut ctx.active_subject, key);
    update_memory(&mut ctx.last_mentioned, key);
    track_recent_entity(ctx, key, entity, None, None);
    let extract = flags.extract_group_member && is_group;
    if flags.force_singular || extract {
        is_plural = false;
    }
    if extract {
        is_viewer = false;
    }
    assert(adjective_words(match None::<&str> { Some(a) => Some(a@), None => None }) == adjective_words(None));
    Ok((is_viewer, is_plural))
}

// ---------------------------------------------------------------------------
// A verb written in the tag
// ---------------------------------------------------------------------------

/// The forced form for the subject: of two forms, the second is for a third-person singular
/// subject and the first for the others; of three, the first is for the speaker of the first
/// person, the third for a third-person singular subject and the second for the others; of
/// any other number, the first (the verb as written when there is none).
pub open spec fn forced_choice(forms: Seq<Seq<char>>, original: Seq<char>, is_viewer: bool, is_plural: bool, stance: ActorStance) -> Seq<char> {
    if forms.len() == 2 {
        if !is_viewer && !is_plural { forms[1] } else { forms[0] }
    } else if forms.len() == 3 {
        if is_viewer && stance == ActorStance::FirstPerson && !is_plural {
            forms[0]
        } else if !is_viewer && !is_plural {
            forms[2]
        } else {
            forms[1]
        }
    } else if forms.len() > 0 {
        forms[0]
    } else {
        original
    }
}

/// The text of a verb written in the tag: a form forced for the context's tense (the future
/// has none), capitalised as the tag asks, or else the verb conjugated (`conjugation`).
pub open spec fn written_verb_text(
    ctx: RenderContext,
    original: Seq<char>,
    lower: Seq<char>,
    forced_present: Option<Seq<Seq<char>>>,
    forced_past: Option<Seq<Seq<char>>>,
    flags: TagFlags,
    is_viewer: bool,
    is_plural: bool,
    custom: Map<Seq<char>, (Seq<char>, Seq<char>)>,
) -> Seq<char> {
    let forced = match ctx.tense {
        Tense::Present => forced_present,
        Tense::Past => forced_past,
        Tense::Future => None,
    };
    match forced {
        Some(fs) => formatted_verb(forced_choice(fs, original, is_viewer, is_plural, ctx.stance), flags.is_capitalized),
        None => conjugation(original, lower, flags.is_capitalized, is_viewer, is_plural, ctx.stance, ctx.tense, custom),
    }
}

/// The forms of an optional list.
pub open spec fn opt_forms(o: Option<Vec<String>>) -> Option<Seq<Seq<char>>> {
    match o {
        Some(v) => Some(string_views(v@)),
        None => None,
    }
}

/// Chooses the forced form (see `forced_choice`).
fn choose_forced<'f>(forms: &'f Vec<String>, original: &'f str, is_viewer: bool, is_plural: bool, stance: ActorStance) -> (r: &'f str)
    ensures
        r@ == forced_choice(string_views(forms@), original@, is_viewer, is_plural, stance),
{
    let n = forms.len();
    if n == 2 {
        if !is_viewer && !is_plural { forms[1].as_str() } else { forms[0].as_str() }
    } else if n == 3 {
        if is_viewer && stance == ActorStance::FirstPerson && !is_plural {
            forms[0].as_str()
        } else if !is_viewer && !is_plural {
            forms[2].as_str()
        } else {
            forms[1].as_str()
        }
    } else if n > 0 {
        forms[0].as_str()
    } else {
        original
    }
}

/// Writes a verb written in the tag (see `written_verb_text`).
fn write_written_verb(
    ctx: &RenderContext,
    raw_output: &mut String,
    original_verb: &String,
    lower_verb: &String,
    forced_present: &Option<Vec<String>>,
    forced_past: &Option<Vec<String>>,
    flags: TagFlags,
    is_viewer: bool,
    is_plural: bool,
    custom: &VerbDictionary,
)
    ensures
        final(raw_output)@ == old(raw_output)@ + written_verb_text(*ctx, original_verb@, lower_verb@, opt_forms(*forced_present), opt_forms(*forced_past), flags, is_viewer, is_plural, custom.map()),
{
    let forced = match ctx.tense {
        Tense::Present => forced_present,
        Tense::Past => forced_past,
        Tense::Future => &None,
    };
    let conjugated = match forced {
        Some(fs) => format_verb(choose_forced(fs, original_verb.as_str(), is_viewer, is_plural, ctx.stance), flags.is_capitalized),
        None => conjugate_verb(original_verb.as_str(), lower_verb.as_str(), flags.is_capitalized, is_viewer, is_plural, ctx.stance, ctx.tense, custom),
    };
    let mut all = chars_of(raw_output.as_str());
    append_str(&mut all, conjugated.as_str());
    *raw_output = string_of(&all);
}

// ---------------------------------------------------------------------------
// A verb taken from a variable
// ---------------------------------------------------------------------------

/// The error for a verb variable that is missing and has no fallback.
pub open spec fn missing_variable(key: Seq<char>) -> Seq<char> {
    "Missing variable for key: "@ + key
}

/// A verb conjugated for the subject, looked up in lower case.
pub open spec fn conjugated_value(ctx: RenderContext, v: Seq<char>, cap: bool, is_viewer: bool, is_plural: bool, custom: Map<Seq<char>, (Seq<char>, Seq<char>)>) -> Seq<char> {
    conjugation(v, unicode_lowercase(v), cap, is_viewer, is_plural, ctx.stance, ctx.tense, custom)
}

/// The verbs that a verb variable stands for, each conjugated: the entity property's value
/// when there is one; else each value of the variable (only the first capitalised); else the
/// fallback; with none of them, an error.
pub open spec fn dynamic_verbs(
    ctx: RenderContext,
    d_key: Seq<char>,
    fallback: Option<Seq<char>>,
    flags: TagFlags,
    is_viewer: bool,
    is_plural: bool,
    property_value: Option<Seq<char>>,
    variable_values: Option<Seq<Seq<char>>>,
    custom: Map<Seq<char>, (Seq<char>, Seq<char>)>,
) -> Result<Seq<Seq<char>>, Seq<char>> {
    match property_value {
        Some(v) => Ok(seq![conjugated_value(ctx, v, flags.is_capitalized, is_viewer, is_plural, custom)]),
        None => match variable_values {
            Some(vs) => Ok(Seq::new(vs.len(), |i: int| conjugated_value(ctx, vs[i], i == 0 && flags.is_capitalized, is_viewer, is_plural, custom))),
            None => match fallback {
                Some(fb) => Ok(seq![conjugated_value(ctx, fb, flags.is_capitalized, is_viewer, is_plural, custom)]),
                None => Err(missing_variable(d_key)),
            },
        },
    }
}

/// Conjugates one verb value (see `conjugated_value`).
fn conjugate_value(ctx: &RenderContext, v: &str, cap: bool, is_viewer: bool, is_plural: bool, custom: &VerbDictionary) -> (r: String)
    ensures
        r@ == conjugated_value(*ctx, v@, cap, is_viewer, is_plural, custom.map()),
{
    let lower = str_to_lowercase(v);
    conjugate_verb(v, lower.as_str(), cap, is_viewer, is_plural, ctx.stance, ctx.tense, custom)
}

impl PerspectiveEngine {
    /// Writes the verbs of a verb variable as a list joined by "and" (see `dynamic_verbs`);
    /// `property_value` is the value of the entity property that the key names, if any,
    /// and `variable_values` the values of the variable, if it is set.
    pub fn render_dynamic_verb_key(
        ctx: &RenderContext,
        raw_output: &mut String,
        d_key: &str,
        dynamic_fallback: Option<&str>,
        flags: TagFlags,
        is_viewer: bool,
        is_plural: bool,
        property_value: Option<&str>,
        variable_values: Option<&Vec<String>>,
        custom: &VerbDictionary,
    ) -> (r: Result<(), String>)
        ensures
            match dynamic_verbs(
                *ctx,
                d_key@,
                match dynamic_fallback { Some(f) => Some(f@), None => None },
                flags,
                is_viewer,
                is_plural,
                match property_value { Some(v) => Some(v@), None => None },
                match variable_values { Some(vs) => Some(string_views(vs@)), None => None },
                custom.map(),
            ) {
                Ok(items) => r is Ok && final(raw_output)@ == old(raw_output)@ + oxford_list(items, "and"@),
                Err(m) => (r matches Err(x) && x@ == m) && final(raw_output)@ == old(raw_output)@,
            },
    {
        let mut items: Vec<String> = Vec::new();
        match property_value {
            Some(v) => {
                items.push(conjugate_value(ctx, v, flags.is_capitalized, is_viewer, is_plural, custom));
            },
            None => match variable_values {
                Some(vs) => {
                    let ghost vv = string_views(vs@);
                    let mut i: usize = 0;
                    while i < vs.len()
                        invariant
                            i <= vs.len(),
                            vv == string_views(vs@),
                            string_views(items@) == Seq::new(i as nat, |j: int| conjugated_value(*ctx, vv[j], j == 0 && flags.is_capitalized, is_viewer, is_plural, custom.map())),
                        decreases vs.len() - i,
                    {
                        let c = conjugate_value(ctx, vs[i].as_str(), i == 0 && flags.is_capitalized, is_viewer, is_plural, custom);
                        let ghost before = string_views(items@);
                        assert(vv[i as int] == vs@[i as int]@);
                        items.push(c);
                        assert(string_views(items@) =~= before.push(c@));
                        assert(string_views(items@) =~= Seq::new((i + 1) as nat, |j: int| conjugated_value(*ctx, vv[j], j == 0 && flags.is_capitalized, is_viewer, is_plural, custom.map())));
                        i = i + 1;
                    }
                },
                None => match dynamic_fallback {
                    Some(fb) => {
                        items.push(conjugate_value(ctx, fb, flags.is_capitalized, is_viewer, is_plural, custom));
                    },
                    None => {
                        let mut msg = chars_of("Missing variable for key: ");
                        append_str(&mut msg, d_key);
                        return Err(string_of(&msg));
                    },
                },
            },
        }
        proof {
            assert(string_views(items@) =~= dynamic_verbs(
                *ctx,
                d_key@,
                match dynamic_fallback { Some(f) => Some(f@), None => None },
                flags,
                is_viewer,
                is_plural,
                match property_value { Some(v) => Some(v@), None => None },
                match variable_values { Some(vs) => Some(string_views(vs@)), None => None },
                custom.map(),
            )->Ok_0);
        }
        let list = format_oxford_list(items, "and");
        let mut all = chars_of(raw_output.as_str());
        append_str(&mut all, list.as_str());
        *raw_output = string_of(&all);
        Ok(())
    }
}

// ---------------------------------------------------------------------------
// A verb tag
// ---------------------------------------------------------------------------

/// Whether `subject_key` is what the subject segment of a tag resolves to: nothing without
/// a segment, the text of a literal segment, and some key for a variable segment.
pub open spec fn resolves_subject(segment: Option<TagSegment>, subject_key: Option<Seq<char>>) -> bool {
    match (segment, subject_key) {
        (None, None) => true,
        (Some(TagSegment::Literal(s)), Some(k)) => k == s@,
        (Some(TagSegment::Variable { .. }), Some(_)) => true,
        _ => false,
    }
}

/// What follows binding a verb to its subject: a failed binding is the error; otherwise the
/// verbs of a verb variable (`dynamic_verbs`) or the verb written in the tag
/// (`written_verb_text`) are written, agreeing as the binding found.
pub open spec fn after_subject(
    ctx1: RenderContext,
    out0: Seq<char>,
    out2: Seq<char>,
    token: TagToken,
    property_value: Option<Seq<char>>,
    variable_values: Option<Seq<Seq<char>>>,
    custom: Map<Seq<char>, (Seq<char>, Seq<char>)>,
    rs: Result<(bool, bool), String>,
    r: Result<(), String>,
) -> bool {
    match token {
        TagToken::VerbRef { original_verb, lower_verb, dynamic_key, dynamic_fallback, forced_present, forced_past, flags, .. } => match rs {
            Err(m) => r == Err::<(), String>(m) && out2 == out0,
            Ok((is_viewer, is_plural)) => match dynamic_key {
                Some(d) => match dynamic_verbs(ctx1, d@, opt_view(dynamic_fallback), flags, is_viewer, is_plural, property_value, variable_values, custom) {
                    Ok(items) => r is Ok && out2 == out0 + oxford_list(items, "and"@),
                    Err(m) => (r matches Err(x) && x@ == m) && out2 == out0,
                },
                None => r is Ok && out2 == out0 + written_verb_text(
                    ctx1,
                    original_verb@,
                    lower_verb@,
                    opt_forms(forced_present),
                    opt_forms(forced_past),
                    flags,
                    is_viewer,
                    is_plural,
                    custom,
                ),
            },
        },
        _ => false,
    }
}

/// What rendering a verb tag does: any other token writes nothing; a verb is bound to its
/// subject (`subject_step`) and then written (`after_subject`).
pub open spec fn verb_ref_step(
    ctx0: RenderContext,
    ctx2: RenderContext,
    out0: Seq<char>,
    out2: Seq<char>,
    token: TagToken,
    subject_key: Option<Seq<char>>,
    property_value: Option<Seq<char>>,
    variable_values: Option<Seq<Seq<char>>>,
    custom: Map<Seq<char>, (Seq<char>, Seq<char>)>,
    pre: KeyMap<&TemplateEntity>,
    r: Result<(), String>,
) -> bool {
    match token {
        TagToken::VerbRef { flags, .. } => exists|rs: Result<(bool, bool), String>|
            #[trigger] subject_step(ctx0, ctx2, subject_key, flags, pre, rs)
                && after_subject(ctx2, out0, out2, token, property_value, variable_values, custom, rs, r),
        _ => r is Ok && ctx2 == ctx0 && out2 == out0,
    }
}

impl PerspectiveEngine {
    /// Renders a verb tag (see `verb_ref_step`). `subject_key` is what the tag's subject
    /// segment resolves to; for a verb variable, `property_value` and `variable_values` are
    /// what its key looks up (see `render_dynamic_verb_key`); `custom` is the dictionary of
    /// irregular verbs added at run time.
    pub fn render_verb_ref<'c>(
        ctx: &mut RenderContext<'c>,
        raw_output: &mut String,
        token: &TagToken,
        subject_key: Option<&str>,
        property_value: Option<&str>,
        variable_values: Option<&Vec<String>>,
        custom: &VerbDictionary,
        pre_resolved: &KeyMap<&'c TemplateEntity>,
    ) -> (r: Result<(), String>)
        requires
            *token matches TagToken::VerbRef { subject_key: seg, .. } ==> resolves_subject(seg, match subject_key { Some(k) => Some(k@), None => None }),
        ensures
            verb_ref_step(
                *old(ctx),
                *final(ctx),
                old(raw_output)@,
                final(raw_output)@,
                *token,
                match subject_key { Some(k) => Some(k@), None => None },
                match property_value { Some(v) => Some(v@), None => None },
                match variable_values { Some(vs) => Some(string_views(vs@)), None => None },
                custom.map(),
                *pre_resolved,
                r,
            ),
    {
        match token {
            TagToken::VerbRef { original_verb, lower_verb, dynamic_key, dynamic_fallback, forced_present, forced_past, flags, .. } => {
                let ghost out0 = raw_output@;
                let rs = bind_verb_subject(ctx, subject_key, *flags, pre_resolved);
                let ghost rsg = rs;
                let (is_viewer, is_plural) = match rs {
                    Ok(a) => a,
                    Err(m) => {
                        return Err(m);
                    },
                };
                match dynamic_key {
                    Some(d) => {
                        let fb = match dynamic_fallback {
                            Some(f) => Some(f.as_str()),
                            None => None,
                        };
                        let r = PerspectiveEngine::render_dynamic_verb_key(
                            ctx,
                            raw_output,
                            d.as_str(),
                            fb,
                            *flags,
                            is_viewer,
                            is_plural,
                            property_value,
                            variable_values,
                            custom,
                        );
                        proof {
                            assert(match fb { Some(f) => Some(f@), None => None::<Seq<char>> } == opt_view(*dynamic_fallback));
                        }
                        r
                    },
                    None => {
                        write_written_verb(ctx, raw_output, original_verb, lower_verb, forced_present, forced_past, *flags, is_viewer, is_plural, custom);
                        Ok(())
                    },
                }
            },
            _ => Ok(()),
        }
    }
}

} // verus!
