//! Reading template values from a context: text properties of entities ("source.color"),
//! dynamic variables, the parts of a tag that name them, and conditions.
use vstd::prelude::*;
use crate::context::direct_entity;
use crate::engine::{opt_str_view, resolve_pre, resolved_entity};
use crate::expressions::{cond_model, value_model, CondModel, Condition, ConditionValue, ValueModel};
use crate::engine::{str_views, EntityRefParams, PerspectiveEngine};
use crate::narrative::{entity_ref_step, ordinals_below};
use crate::grammar::VerbDictionary;
use crate::models::opt_view;
use crate::tags::TagToken;
use crate::template::ConditionalBranch;
use crate::verbs::{bind_verb_subject, missing_variable, subject_step, verb_ref_step};
use crate::grammar::{capitalize_first, capitalized, format_oxford_list, oxford_list, string_views};
use crate::parser::TagFlags;
use crate::render::{apply_all_caps, caps_text};
use crate::keymap::KeyMap;
use crate::models::{lookup, RenderContext, TemplateEntity};
use crate::parser::TagSegment;
use crate::text::{
    append_str, chars_find_from, chars_of, eq_ignore_ascii_case, find, find_key, join, last_char_index,
    rfind_char, str_eq, str_eq_ignore_ascii_case, string_of, subrange_of,
};

verus! {

// ---------------------------------------------------------------------------
// What entities and contexts hold
// ---------------------------------------------------------------------------

/// The text property `prop` of an entity, if it has one.
pub open spec fn string_property_spec(e: TemplateEntity, prop: Seq<char>) -> Option<Seq<char>> {
    match lookup(e.string_properties@, prop) {
        Some(v) => Some(v@),
        None => None,
    }
}

/// Whether the condition `prop` holds for an entity.
pub open spec fn condition_holds(e: TemplateEntity, prop: Seq<char>) -> bool {
    exists|i: int| 0 <= i < e.conditions@.len() && #[trigger] e.conditions@[i]@ == prop
}

/// The values of a context variable, if it is set.
pub open spec fn variable_spec(ctx: RenderContext, key: Seq<char>) -> Option<Seq<Seq<char>>> {
    match lookup(ctx.variables@, key) {
        Some(vs) => Some(string_views(vs@)),
        None => None,
    }
}

/// Reads the text property `prop` of an entity.
pub fn get_string_property(e: &TemplateEntity, prop: &str) -> (r: Option<String>)
    ensures
        match r {
            Some(v) => string_property_spec(*e, prop@) == Some(v@),
            None => string_property_spec(*e, prop@) is None,
        },
{
    match find_key(&e.string_properties, prop) {
        Some(i) => Some(e.string_properties[i].1.clone()),
        None => None,
    }
}

/// Tests whether the condition `prop` holds for an entity.
pub fn check_condition(e: &TemplateEntity, prop: &str) -> (r: bool)
    ensures
        r == condition_holds(*e, prop@),
{
    let mut i: usize = 0;
    while i < e.conditions.len()
        invariant
            i <= e.conditions.len(),
            forall|j: int| 0 <= j < i ==> e.conditions@[j]@ != prop@,
        decreases e.conditions.len() - i,
    {
        if str_eq(e.conditions[i].as_str(), prop) {
            return true;
        }
        i = i + 1;
    }
    false
}

fn variable_values<'c>(ctx: &'c RenderContext, key: &str) -> (r: Option<&'c Vec<String>>)
    ensures
        match r {
            Some(vs) => variable_spec(*ctx, key@) == Some(string_views(vs@)),
            None => variable_spec(*ctx, key@) is None,
        },
{
    match find_key(&ctx.variables, key) {
        Some(i) => Some(&ctx.variables[i].1),
        None => None,
    }
}

fn join_values(vs: &Vec<String>) -> (r: String)
    ensures
        r@ == join(string_views(vs@), " "@),
{
    let ghost sv = string_views(vs@);
    let mut out: Vec<char> = Vec::new();
    let mut i: usize = 0;
    while i < vs.len()
        invariant
            i <= vs.len(),
            sv == string_views(vs@),
            out@ == join(sv.take(i as int), " "@),
        decreases vs.len() - i,
    {
        let ghost before = sv.take(i as int);
        if i > 0 {
            append_str(&mut out, " ");
        }
        append_str(&mut out, vs[i].as_str());
        i = i + 1;
        proof {
            let now = sv.take(i as int);
            assert(now.drop_last() =~= before);
            assert(now.last() == vs@[i - 1]@);
            if i == 1 {
                assert(out@ =~= now[0]);
            }
        }
    }
    assert(sv.take(i as int) =~= sv);
    string_of(&out)
}

// ---------------------------------------------------------------------------
// Entity properties and tag segments
// ---------------------------------------------------------------------------

/// The error for a text property that an entity lacks.
pub open spec fn missing_string_property(prop: Seq<char>, ent: Seq<char>) -> Seq<char> {
    "Missing string property '"@ + prop + "' on entity '"@ + ent + "'"@
}

/// What a "path.prop" key reads as a text property: nothing (`Ok(None)`) unless the key
/// holds a '.' and the part before its first '.' is an entity of the context; then the
/// property after the last '.' of the entity that the part before it names, else the
/// fallback, else an error.
pub open spec fn entity_property(ctx: RenderContext, pre: KeyMap<&TemplateEntity>, key: Seq<char>, fallback: Option<Seq<char>>) -> Result<Option<Seq<char>>, Seq<char>> {
    match last_char_index(key, '.') {
        None => Ok(None),
        Some(d) => {
            let ent = key.take(d);
            let prop = key.skip(d + 1);
            let root = match find(ent, seq!['.']) {
                Some(j) => ent.take(j),
                None => ent,
            };
            if direct_entity(ctx, root) is Some {
                let found = match resolved_entity(ctx, pre, ent) {
                    Some(e) => string_property_spec(e, prop),
                    None => None,
                };
                match found {
                    Some(v) => Ok(Some(v)),
                    None => match fallback {
                        Some(fb) => Ok(Some(fb)),
                        None => Err(missing_string_property(prop, ent)),
                    },
                }
            } else {
                Ok(None)
            }
        },
    }
}

/// Reads a "path.prop" key as a text property (see `entity_property`).
pub fn resolve_entity_property<'c>(
    ctx: &RenderContext<'c>,
    key: &str,
    fallback: Option<&str>,
    pre_resolved: &KeyMap<&'c TemplateEntity>,
) -> (r: Result<Option<String>, String>)
    ensures
        entity_property(*ctx, *pre_resolved, key@, opt_str_view(fallback)) == (match r {
            Ok(Some(v)) => Ok(Some(v@)),
            Ok(None) => Ok(None),
            Err(e) => Err(e@),
        }),
{
    let kv = chars_of(key);
    let d = match rfind_char(&kv, '.') {
        Some(d) => d,
        None => {
            return Ok(None);
        },
    };
    let ent = subrange_of(&kv, 0, d);
    let prop = subrange_of(&kv, d + 1, kv.len());
    assert(ent@ =~= key@.take(d as int));
    assert(prop@ =~= key@.skip(d + 1));
    let dot = vec!['.'];
    assert(dot@ =~= seq!['.']);
    let root = match chars_find_from(&ent, &dot, 0) {
        Some(j) => {
            proof {
                crate::text::lemma_find_bounds(ent@, dot@, 0);
            }
            let r = subrange_of(&ent, 0, j);
            assert(r@ =~= ent@.take(j as int));
            r
        },
        None => ent.clone(),
    };
    let root_s = string_of(&root);
    if find_key(&ctx.entities, root_s.as_str()).is_none() {
        return Ok(None);
    }
    let ent_s = string_of(&ent);
    let prop_s = string_of(&prop);
    let found = match resolve_pre(ctx, pre_resolved, ent_s.as_str()) {
        Some(e) => get_string_property(e, prop_s.as_str()),
        None => None,
    };
    match found {
        Some(v) => Ok(Some(v)),
        None => match fallback {
            Some(fb) => Ok(Some(String::from_str(fb))),
            None => {
                let mut m: Vec<char> = Vec::new();
                append_str(&mut m, "Missing string property '");
                append_str(&mut m, prop_s.as_str());
                append_str(&mut m, "' on entity '");
                append_str(&mut m, ent_s.as_str());
                append_str(&mut m, "'");
                assert(m@ =~= missing_string_property(prop@, ent@));
                Err(string_of(&m))
            },
        },
    }
}

/// The plain-value model of a tag segment.
pub open spec fn segment_view(seg: TagSegment) -> (bool, Seq<char>, Option<Seq<char>>) {
    match seg {
        TagSegment::Literal(s) => (true, s@, None),
        TagSegment::Variable { key, fallback } => (false, key@, match fallback {
            Some(f) => Some(f@),
            None => None,
        }),
    }
}

/// What a tag segment reads as: a literal as written; a variable as the text property it
/// names (see `entity_property`), else the values of the context variable joined with
/// spaces, else its fallback, else an error.
pub open spec fn segment_text(ctx: RenderContext, pre: KeyMap<&TemplateEntity>, seg: (bool, Seq<char>, Option<Seq<char>>)) -> Result<Seq<char>, Seq<char>> {
    if seg.0 {
        Ok(seg.1)
    } else {
        match entity_property(ctx, pre, seg.1, seg.2) {
            Err(e) => Err(e),
            Ok(Some(v)) => Ok(v),
            Ok(None) => match variable_spec(ctx, seg.1) {
                Some(vs) => Ok(join(vs, " "@)),
                None => match seg.2 {
                    Some(fb) => Ok(fb),
                    None => Err(missing_variable(seg.1)),
                },
            },
        }
    }
}

/// Reads a tag segment (see `segment_text`).
pub fn resolve_tag_segment<'c>(ctx: &RenderContext<'c>, segment: &TagSegment, pre_resolved: &KeyMap<&'c TemplateEntity>) -> (r: Result<String, String>)
    ensures
        segment_text(*ctx, *pre_resolved, segment_view(*segment)) == (match r {
            Ok(v) => Ok(v@),
            Err(e) => Err(e@),
        }),
{
    match segment {
        TagSegment::Literal(s) => Ok(s.clone()),
        TagSegment::Variable { key, fallback } => {
            let fb: Option<&str> = match fallback {
                Some(f) => Some(f.as_str()),
                None => None,
            };
            match resolve_entity_property(ctx, key.as_str(), fb, pre_resolved) {
                Err(e) => {
                    return Err(e);
                },
                Ok(Some(v)) => {
                    return Ok(v);
                },
                Ok(None) => {},
            }
            match variable_values(ctx, key.as_str()) {
                Some(vs) => Ok(join_values(vs)),
                None => match fallback {
                    Some(f) => Ok(f.clone()),
                    None => {
                        let mut m: Vec<char> = Vec::new();
                        append_str(&mut m, "Missing variable for key: ");
                        append_str(&mut m, key.as_str());
                        assert(m@ =~= missing_variable(key@));
                        Err(string_of(&m))
                    },
                },
            }
        },
    }
}

// ---------------------------------------------------------------------------
// Conditions
// ---------------------------------------------------------------------------

/// Whether a text counts as true: it is not empty, "false" in any case, or "0".
pub open spec fn truthy(s: Seq<char>) -> bool {
    s.len() > 0 && !eq_ignore_ascii_case(s, "false"@) && s != "0"@
}

/// The truth of a condition value; `None` for a number, whose truth its floating-point
/// value decides.
pub open spec fn value_truth(ctx: RenderContext, pre: KeyMap<&TemplateEntity>, v: ValueModel) -> Option<bool> {
    match v {
        ValueModel::Literal(s) => Some(truthy(s)),
        ValueModel::Number(_) => None,
        ValueModel::Variable(var) => Some(match variable_spec(ctx, var) {
            None => false,
            Some(vs) => if vs.len() == 0 {
                false
            } else if vs.len() == 1 {
                truthy(vs[0])
            } else {
                true
            },
        }),
        ValueModel::EntityProperty(ent, prop) => Some(match resolved_entity(ctx, pre, ent) {
            Some(e) => condition_holds(e, prop),
            None => false,
        }),
    }
}

/// The text of a condition value (`Some(None)` when it has none); `None` for a number,
/// whose text its floating-point value decides.
pub open spec fn value_text(ctx: RenderContext, pre: KeyMap<&TemplateEntity>, v: ValueModel) -> Option<Option<Seq<char>>> {
    match v {
        ValueModel::Literal(s) => Some(Some(s)),
        ValueModel::Number(_) => None,
        ValueModel::Variable(var) => Some(match variable_spec(ctx, var) {
            Some(vs) => Some(join(vs, " "@)),
            None => None,
        }),
        ValueModel::EntityProperty(ent, prop) => Some(match resolved_entity(ctx, pre, ent) {
            Some(e) => string_property_spec(e, prop),
            None => None,
        }),
    }
}

/// The truth of a condition, left operand first with the right one read only when it
/// decides; `None` where a number decides (a numeric comparison, or a number read as a
/// truth or a text).
pub open spec fn condition_truth(ctx: RenderContext, pre: KeyMap<&TemplateEntity>, c: CondModel) -> Option<bool>
    decreases c,
{
    match c {
        CondModel::Value(v) => value_truth(ctx, pre, v),
        CondModel::Not(b) => match condition_truth(ctx, pre, *b) {
            Some(x) => Some(!x),
            None => None,
        },
        CondModel::And(l, r) => match condition_truth(ctx, pre, *l) {
            Some(false) => Some(false),
            Some(true) => condition_truth(ctx, pre, *r),
            None => None,
        },
        CondModel::Or(l, r) => match condition_truth(ctx, pre, *l) {
            Some(true) => Some(true),
            Some(false) => condition_truth(ctx, pre, *r),
            None => None,
        },
        CondModel::Eq(a, b) => match (value_text(ctx, pre, a), value_text(ctx, pre, b)) {
            (Some(x), Some(y)) => Some(x == y),
            _ => None,
        },
        CondModel::NotEq(a, b) => match (value_text(ctx, pre, a), value_text(ctx, pre, b)) {
            (Some(x), Some(y)) => Some(x != y),
            _ => None,
        },
        _ => None,
    }
}

fn truthy_exec(s: &str) -> (r: bool)
    ensures
        r == truthy(s@),
{
    s.unicode_len() > 0 && !str_eq_ignore_ascii_case(s, "false") && !str_eq(s, "0")
}

fn condition_value_bool<'c>(ctx: &RenderContext<'c>, val: &ConditionValue, pre: &KeyMap<&'c TemplateEntity>) -> (r: Option<bool>)
    ensures
        r == value_truth(*ctx, *pre, value_model(*val)),
{
    match val {
        ConditionValue::Literal(s) => Some(truthy_exec(s.as_str())),
        ConditionValue::Number(_) => None,
        ConditionValue::Variable(var) => Some(match variable_values(ctx, var.as_str()) {
            None => false,
            Some(vs) => if vs.len() == 0 {
                false
            } else if vs.len() == 1 {
                truthy_exec(vs[0].as_str())
            } else {
                true
            },
        }),
        ConditionValue::EntityProperty(ent, prop) => Some(match resolve_pre(ctx, pre, ent.as_str()) {
            Some(e) => check_condition(e, prop.as_str()),
            None => false,
        }),
    }
}

fn condition_value_string<'c>(ctx: &RenderContext<'c>, val: &ConditionValue, pre: &KeyMap<&'c TemplateEntity>) -> (r: Option<Option<String>>)
    ensures
        value_text(*ctx, *pre, value_model(*val)) == (match r {
            Some(Some(t)) => Some(Some(t@)),
            Some(None) => Some(None),
            None => None,
        }),
{
    match val {
        ConditionValue::Literal(s) => Some(Some(s.clone())),
        ConditionValue::Number(_) => None,
        ConditionValue::Variable(var) => Some(match variable_values(ctx, var.as_str()) {
            Some(vs) => Some(join_values(vs)),
            None => None,
        }),
        ConditionValue::EntityProperty(ent, prop) => Some(match resolve_pre(ctx, pre, ent.as_str()) {
            Some(e) => get_string_property(e, prop.as_str()),
            None => None,
        }),
    }
}

fn opt_text_eq(a: &Option<String>, b: &Option<String>) -> (r: bool)
    ensures
        r == ((match a { Some(x) => Some(x@), None => None::<Seq<char>> }) == (match b { Some(y) => Some(y@), None => None::<Seq<char>> })),
{
    match (a, b) {
        (Some(x), Some(y)) => str_eq(x.as_str(), y.as_str()),
        (None, None) => true,
        _ => false,
    }
}

/// Evaluates a condition (see `condition_truth`); `None` where a number decides.
pub fn evaluate_condition<'c>(ctx: &RenderContext<'c>, condition: &Condition, pre_resolved: &KeyMap<&'c TemplateEntity>) -> (r: Option<bool>)
    ensures
        r == condition_truth(*ctx, *pre_resolved, cond_model(*condition)),
    decreases condition,
{
    match condition {
        Condition::Value(v) => condition_value_bool(ctx, v, pre_resolved),
        Condition::Not(b) => match evaluate_condition(ctx, b, pre_resolved) {
            Some(x) => Some(!x),
            None => None,
        },
        Condition::And(l, r) => match evaluate_condition(ctx, l, pre_resolved) {
            Some(false) => Some(false),
            Some(true) => evaluate_condition(ctx, r, pre_resolved),
            None => None,
        },
        Condition::Or(l, r) => match evaluate_condition(ctx, l, pre_resolved) {
            Some(true) => Some(true),
            Some(false) => evaluate_condition(ctx, r, pre_resolved),
            None => None,
        },
        Condition::Eq(a, b) => match (condition_value_string(ctx, a, pre_resolved), condition_value_string(ctx, b, pre_resolved)) {
            (Some(x), Some(y)) => Some(opt_text_eq(&x, &y)),
            _ => None,
        },
        Condition::NotEq(a, b) => match (condition_value_string(ctx, a, pre_resolved), condition_value_string(ctx, b, pre_resolved)) {
            (Some(x), Some(y)) => Some(!opt_text_eq(&x, &y)),
            _ => None,
        },
        _ => None,
    }
}

// ---------------------------------------------------------------------------
// Variable tags
// ---------------------------------------------------------------------------

/// A value as a variable tag writes it: in capitals with `all_caps`, else with its first
/// letter capitalized when the tag was, else as it is.
pub open spec fn formatted_value(v: Seq<char>, flags: TagFlags) -> Seq<char> {
    if flags.all_caps {
        caps_text(v)
    } else if flags.is_capitalized {
        capitalized(v)
    } else {
        v
    }
}

/// The values of a variable with the first one capitalized when `cap` holds.
pub open spec fn first_capitalized(vs: Seq<Seq<char>>, cap: bool) -> Seq<Seq<char>> {
    if cap && vs.len() > 0 {
        vs.update(0, capitalized(vs[0]))
    } else {
        vs
    }
}

/// What a variable tag writes: the text property it names (see `entity_property`),
/// formatted; else the values of the context variable as an Oxford list joined with
/// "and", the first capitalized when the tag was; else its fallback, formatted; else an
/// error.
pub open spec fn variable_ref_text(ctx: RenderContext, pre: KeyMap<&TemplateEntity>, key: Seq<char>, fallback: Option<Seq<char>>, flags: TagFlags) -> Result<Seq<char>, Seq<char>> {
    match entity_property(ctx, pre, key, fallback) {
        Err(e) => Err(e),
        Ok(Some(v)) => Ok(formatted_value(v, flags)),
        Ok(None) => match variable_spec(ctx, key) {
            Some(vs) => Ok(oxford_list(first_capitalized(vs, flags.is_capitalized), "and"@)),
            None => match fallback {
                Some(fb) => Ok(formatted_value(fb, flags)),
                None => Err(missing_variable(key)),
            },
        },
    }
}

fn format_value(val: &str, flags: TagFlags) -> (r: String)
    ensures
        r@ == formatted_value(val@, flags),
{
    if flags.all_caps {
        let mut out = String::new();
        apply_all_caps(val, &mut out);
        assert(out@ =~= caps_text(val@));
        out
    } else if flags.is_capitalized {
        capitalize_first(val)
    } else {
        String::from_str(val)
    }
}

fn variable_list(vs: &Vec<String>, cap: bool) -> (r: String)
    ensures
        r@ == oxford_list(first_capitalized(string_views(vs@), cap), "and"@),
{
    let mut items: Vec<String> = Vec::new();
    let mut i: usize = 0;
    while i < vs.len()
        invariant
            i <= vs.len(),
            string_views(items@) == first_capitalized(string_views(vs@), cap).take(i as int),
        decreases vs.len() - i,
    {
        let ghost before = string_views(items@);
        let item = if i == 0 && cap { capitalize_first(vs[i].as_str()) } else { vs[i].clone() };
        items.push(item);
        assert(string_views(items@) =~= before.push(item@));
        i = i + 1;
        assert(string_views(items@) =~= first_capitalized(string_views(vs@), cap).take(i as int));
    }
    assert(first_capitalized(string_views(vs@), cap).take(i as int) =~= first_capitalized(string_views(vs@), cap));
    format_oxford_list(items, "and")
}

fn push_text(out: &mut String, text: &str)
    ensures
        final(out)@ == old(out)@ + text@,
{
    let mut all = chars_of(out.as_str());
    append_str(&mut all, text);
    *out = string_of(&all);
}

impl PerspectiveEngine {
    /// Writes a variable tag (see `variable_ref_text`); on an error nothing is written.
    pub fn render_variable_ref<'c>(
        ctx: &RenderContext<'c>,
        raw_output: &mut String,
        key: &str,
        fallback: Option<&str>,
        flags: TagFlags,
        pre_resolved: &KeyMap<&'c TemplateEntity>,
    ) -> (r: Result<(), String>)
        ensures
            match r {
                Ok(()) => variable_ref_text(*ctx, *pre_resolved, key@, opt_str_view(fallback), flags) matches Ok(t)
                    && final(raw_output)@ == old(raw_output)@ + t,
                Err(e) => variable_ref_text(*ctx, *pre_resolved, key@, opt_str_view(fallback), flags) == Err::<Seq<char>, Seq<char>>(e@)
                    && final(raw_output)@ == old(raw_output)@,
            },
    {
        let ghost out0 = raw_output@;
        let text = match resolve_entity_property(ctx, key, fallback, pre_resolved) {
            Err(e) => {
                return Err(e);
            },
            Ok(Some(v)) => format_value(v.as_str(), flags),
            Ok(None) => match variable_values(ctx, key) {
                Some(vs) => variable_list(vs, flags.is_capitalized),
                None => match fallback {
                    Some(fb) => format_value(fb, flags),
                    None => {
                        let mut m: Vec<char> = Vec::new();
                        append_str(&mut m, "Missing variable for key: ");
                        append_str(&mut m, key);
                        assert(m@ =~= missing_variable(key@));
                        return Err(string_of(&m));
                    },
                },
            },
        };
        push_text(raw_output, text.as_str());
        Ok(())
    }
}

// ---------------------------------------------------------------------------
// Entity tags
// ---------------------------------------------------------------------------

/// The text of an optional tag segment (see `segment_text`).
pub open spec fn opt_segment_text(ctx: RenderContext, pre: KeyMap<&TemplateEntity>, seg: Option<TagSegment>) -> Result<Option<Seq<char>>, Seq<char>> {
    match seg {
        None => Ok(None),
        Some(s) => match segment_text(ctx, pre, segment_view(s)) {
            Ok(t) => Ok(Some(t)),
            Err(e) => Err(e),
        },
    }
}

/// A failed step: the error, with the context and the output unchanged.
pub open spec fn failed_step(ctx0: RenderContext, ctx2: RenderContext, out0: Seq<char>, out2: Seq<char>, r: Result<(), String>, e: Seq<char>) -> bool {
    &&& ctx2 == ctx0
    &&& out2 == out0
    &&& r matches Err(m) && m@ == e
}

/// What rendering an entity tag does: its key, article, pronoun type, owner and adjectives
/// are read in that order (see `segment_text`), and the first that fails gives the error;
/// otherwise the reference they make, with no ordinal, is rendered (see `entity_ref_step`).
pub open spec fn entity_token_step<'a>(
    ctx0: RenderContext,
    ctx2: RenderContext,
    out0: Seq<char>,
    out2: Seq<char>,
    key: TagSegment,
    article: Option<TagSegment>,
    p_type: Option<TagSegment>,
    owner_key: Option<TagSegment>,
    owner_flags: TagFlags,
    adjectives: Option<TagSegment>,
    flags: TagFlags,
    future: Seq<Seq<char>>,
    pre: KeyMap<&TemplateEntity>,
    r: Result<(), String>,
) -> bool {
    match segment_text(ctx0, pre, segment_view(key)) {
        Err(e) => failed_step(ctx0, ctx2, out0, out2, r, e),
        Ok(k) => match opt_segment_text(ctx0, pre, article) {
            Err(e) => failed_step(ctx0, ctx2, out0, out2, r, e),
            Ok(a) => match opt_segment_text(ctx0, pre, p_type) {
                Err(e) => failed_step(ctx0, ctx2, out0, out2, r, e),
                Ok(p) => match opt_segment_text(ctx0, pre, owner_key) {
                    Err(e) => failed_step(ctx0, ctx2, out0, out2, r, e),
                    Ok(o) => match opt_segment_text(ctx0, pre, adjectives) {
                        Err(e) => failed_step(ctx0, ctx2, out0, out2, r, e),
                        Ok(adj) => exists|params: EntityRefParams<'a>|
                            #![trigger entity_ref_step(ctx0, ctx2, out0, out2, params, future, pre, r)]
                            params.key@ == k && opt_str_view(params.article) == a && opt_str_view(params.p_type) == p
                                && opt_str_view(params.owner_key) == o && params.owner_flags == owner_flags
                                && opt_str_view(params.adjectives) == adj && params.flags == flags && params.ordinal is None
                                && entity_ref_step(ctx0, ctx2, out0, out2, params, future, pre, r),
                    },
                },
            },
        },
    }
}

fn resolve_opt_segment<'c>(ctx: &RenderContext<'c>, seg: &Option<TagSegment>, pre_resolved: &KeyMap<&'c TemplateEntity>) -> (r: Result<Option<String>, String>)
    ensures
        opt_segment_text(*ctx, *pre_resolved, *seg) == (match r {
            Ok(Some(t)) => Ok(Some(t@)),
            Ok(None) => Ok(None),
            Err(e) => Err(e@),
        }),
{
    match seg {
        None => Ok(None),
        Some(s) => match resolve_tag_segment(ctx, s, pre_resolved) {
            Ok(t) => Ok(Some(t)),
            Err(e) => Err(e),
        },
    }
}

fn opt_as_str(o: &Option<String>) -> (r: Option<&str>)
    ensures
        opt_str_view(r) == (match o { Some(s) => Some(s@), None => None::<Seq<char>> }),
{
    match o {
        Some(s) => Some(s.as_str()),
        None => None,
    }
}

impl PerspectiveEngine {
    /// Renders an entity tag (see `entity_token_step`).
    pub fn render_entity_token<'c>(
        ctx: &mut RenderContext<'c>,
        raw_output: &mut String,
        key: &TagSegment,
        article: &Option<TagSegment>,
        p_type: &Option<TagSegment>,
        owner_key: &Option<TagSegment>,
        owner_flags: TagFlags,
        adjectives: &Option<TagSegment>,
        flags: TagFlags,
        future_keys: &Vec<&str>,
        pre_resolved: &KeyMap<&'c TemplateEntity>,
    ) -> (r: Result<(), String>)
        requires
            ordinals_below(*old(ctx), usize::MAX - 1),
        ensures
            entity_token_step(*old(ctx), *final(ctx), old(raw_output)@, final(raw_output)@, *key, *article, *p_type, *owner_key, owner_flags, *adjectives, flags, str_views(future_keys@), *pre_resolved, r),
    {
        let k = match resolve_tag_segment(&*ctx, key, pre_resolved) {
            Ok(k) => k,
            Err(e) => {
                return Err(e);
            },
        };
        let a = match resolve_opt_segment(&*ctx, article, pre_resolved) {
            Ok(a) => a,
            Err(e) => {
                return Err(e);
            },
        };
        let p = match resolve_opt_segment(&*ctx, p_type, pre_resolved) {
            Ok(p) => p,
            Err(e) => {
                return Err(e);
            },
        };
        let o = match resolve_opt_segment(&*ctx, owner_key, pre_resolved) {
            Ok(o) => o,
            Err(e) => {
                return Err(e);
            },
        };
        let adj = match resolve_opt_segment(&*ctx, adjectives, pre_resolved) {
            Ok(adj) => adj,
            Err(e) => {
                return Err(e);
            },
        };
        let params = EntityRefParams {
            key: k.as_str(),
            article: opt_as_str(&a),
            p_type: opt_as_str(&p),
            owner_key: opt_as_str(&o),
            owner_flags,
            adjectives: opt_as_str(&adj),
            flags,
            ordinal: None,
        };
        let ghost ctx0 = *ctx;
        let ghost out0 = raw_output@;
        let r = PerspectiveEngine::render_entity_ref(ctx, raw_output, &params, future_keys, pre_resolved);
        assert(entity_ref_step(ctx0, *ctx, out0, raw_output@, params, str_views(future_keys@), *pre_resolved, r));
        r
    }
}

// ---------------------------------------------------------------------------
// Verb tags
// ---------------------------------------------------------------------------

/// What rendering a verb tag does: its subject segment is read first (see `segment_text`),
/// and a failure there is the error; then the verb is bound and written (see
/// `verb_ref_step`), a verb variable taking the text property its key names (see
/// `entity_property`) and the values of the context variable. When reading that property
/// fails, the subject is still bound, and the error is the binding's, if it failed, else
/// the property's, with nothing written.
pub open spec fn verb_token_step(
    ctx0: RenderContext,
    ctx2: RenderContext,
    out0: Seq<char>,
    out2: Seq<char>,
    token: TagToken,
    custom: Map<Seq<char>, (Seq<char>, Seq<char>)>,
    pre: KeyMap<&TemplateEntity>,
    r: Result<(), String>,
) -> bool {
    match token {
        TagToken::VerbRef { subject_key, dynamic_key, dynamic_fallback, flags, .. } => match opt_segment_text(ctx0, pre, subject_key) {
            Err(e) => failed_step(ctx0, ctx2, out0, out2, r, e),
            Ok(sk) => match dynamic_key {
                None => verb_ref_step(ctx0, ctx2, out0, out2, token, sk, None, None, custom, pre, r),
                Some(d) => match entity_property(ctx0, pre, d@, opt_view(dynamic_fallback)) {
                    Ok(pv) => verb_ref_step(ctx0, ctx2, out0, out2, token, sk, pv, variable_spec(ctx0, d@), custom, pre, r),
                    Err(e) => out2 == out0 && exists|rs: Result<(bool, bool), String>|
                        #[trigger] subject_step(ctx0, ctx2, sk, flags, pre, rs) && match rs {
                            Err(m) => r == Err::<(), String>(m),
                            Ok(_) => r matches Err(x) && x@ == e,
                        },
                },
            },
        },
        _ => r is Ok && ctx2 == ctx0 && out2 == out0,
    }
}

impl PerspectiveEngine {
    /// Renders a verb tag (see `verb_token_step`); `custom` is the dictionary of irregular
    /// verbs added at run time.
    pub fn render_verb_token<'c>(
        ctx: &mut RenderContext<'c>,
        raw_output: &mut String,
        token: &TagToken,
        custom: &VerbDictionary,
        pre_resolved: &KeyMap<&'c TemplateEntity>,
    ) -> (r: Result<(), String>)
        ensures
            verb_token_step(*old(ctx), *final(ctx), old(raw_output)@, final(raw_output)@, *token, custom.map(), *pre_resolved, r),
    {
        match token {
            TagToken::VerbRef { subject_key, dynamic_key, dynamic_fallback, flags, .. } => {
                let sk = match resolve_opt_segment(&*ctx, subject_key, pre_resolved) {
                    Ok(sk) => sk,
                    Err(e) => {
                        return Err(e);
                    },
                };
                proof {
                    match subject_key {
                        Some(TagSegment::Literal(_)) => {},
                        _ => {},
                    }
                }
                let skr = opt_as_str(&sk);
                match dynamic_key {
                    None => PerspectiveEngine::render_verb_ref(ctx, raw_output, token, skr, None, None, custom, pre_resolved),
                    Some(d) => {
                        let fb: Option<&str> = match dynamic_fallback {
                            Some(f) => Some(f.as_str()),
                            None => None,
                        };
                        proof {
                            assert(opt_str_view(fb) == opt_view(*dynamic_fallback));
                        }
                        match resolve_entity_property(&*ctx, d.as_str(), fb, pre_resolved) {
                            Ok(pv) => {
                                let vals: Option<Vec<String>> = match variable_values(&*ctx, d.as_str()) {
                                    Some(vs) => Some(crate::models::clone_strings(vs)),
                                    None => None,
                                };
                                let pvr = opt_as_str(&pv);
                                let valr: Option<&Vec<String>> = match &vals {
                                    Some(vs) => Some(vs),
                                    None => None,
                                };
                                PerspectiveEngine::render_verb_ref(ctx, raw_output, token, skr, pvr, valr, custom, pre_resolved)
                            },
                            Err(e) => {
                                let ghost ctx0 = *ctx;
                                let rs = bind_verb_subject(ctx, skr, *flags, pre_resolved);
                                let ghost rsg = rs;
                                let r = match rs {
                                    Err(m) => Err(m),
                                    Ok(_) => Err(e),
                                };
                                assert(subject_step(ctx0, *ctx, opt_str_view(skr), *flags, *pre_resolved, rsg));
                                r
                            },
                        }
                    },
                }
            },
            _ => Ok(()),
        }
    }
}

// ---------------------------------------------------------------------------
// Conditional blocks
// ---------------------------------------------------------------------------

/// The branch a conditional block takes: the first whose condition holds (`Some(Some(i))`),
/// or the fallback when none does (`Some(None)`); `None` when a number decides a condition
/// met on the way.
pub open spec fn chosen_branch(ctx: RenderContext, pre: KeyMap<&TemplateEntity>, conds: Seq<CondModel>) -> Option<Option<nat>>
    decreases conds.len(),
{
    if conds.len() == 0 {
        Some(None)
    } else {
        match condition_truth(ctx, pre, conds[0]) {
            Some(true) => Some(Some(0)),
            Some(false) => match chosen_branch(ctx, pre, conds.drop_first()) {
                Some(Some(i)) => Some(Some(i + 1)),
                other => other,
            },
            None => None,
        }
    }
}

/// The conditions of a block's branches.
pub open spec fn branch_conditions(branches: Seq<ConditionalBranch>) -> Seq<CondModel> {
    branches.map_values(|b: ConditionalBranch| cond_model(b.condition))
}

proof fn lemma_chosen_after_false(ctx: RenderContext, pre: KeyMap<&TemplateEntity>, conds: Seq<CondModel>, i: int)
    requires
        0 <= i <= conds.len(),
        forall|j: int| 0 <= j < i ==> condition_truth(ctx, pre, #[trigger] conds[j]) == Some(false),
    ensures
        chosen_branch(ctx, pre, conds) == (match chosen_branch(ctx, pre, conds.skip(i)) {
            Some(Some(k)) => Some(Some((k + i) as nat)),
            other => other,
        }),
    decreases i,
{
    if i == 0 {
        assert(conds.skip(0) =~= conds);
        match chosen_branch(ctx, pre, conds) {
            Some(Some(k)) => {},
            _ => {},
        }
    } else {
        assert(condition_truth(ctx, pre, conds[0]) == Some(false));
        let t = conds.drop_first();
        assert forall|j: int| 0 <= j < i - 1 implies condition_truth(ctx, pre, #[trigger] t[j]) == Some(false) by {
            assert(t[j] == conds[j + 1]);
        }
        lemma_chosen_after_false(ctx, pre, t, i - 1);
        assert(t.skip(i - 1) =~= conds.skip(i));
    }
}

/// Chooses the branch a conditional block takes (see `chosen_branch`).
pub fn select_branch<'c>(ctx: &RenderContext<'c>, branches: &Vec<ConditionalBranch>, pre_resolved: &KeyMap<&'c TemplateEntity>) -> (r: Option<Option<usize>>)
    ensures
        r matches Some(Some(i)) ==> i < branches.len(),
        chosen_branch(*ctx, *pre_resolved, branch_conditions(branches@)) == (match r {
            Some(Some(i)) => Some(Some(i as nat)),
            Some(None) => Some(None::<nat>),
            None => None::<Option<nat>>,
        }),
{
    let ghost conds = branch_conditions(branches@);
    let mut i: usize = 0;
    while i < branches.len()
        invariant
            i <= branches.len(),
            conds == branch_conditions(branches@),
            forall|j: int| 0 <= j < i ==> condition_truth(*ctx, *pre_resolved, #[trigger] conds[j]) == Some(false),
        decreases branches.len() - i,
    {
        assert(conds[i as int] == cond_model(branches@[i as int].condition));
        match evaluate_condition(ctx, &branches[i].condition, pre_resolved) {
            Some(true) => {
                proof {
                    lemma_chosen_after_false(*ctx, *pre_resolved, conds, i as int);
                    assert(conds.skip(i as int)[0] == conds[i as int]);
                }
                return Some(Some(i));
            },
            Some(false) => {},
            None => {
                proof {
                    lemma_chosen_after_false(*ctx, *pre_resolved, conds, i as int);
                    assert(conds.skip(i as int)[0] == conds[i as int]);
                }
                return None;
            },
        }
        i = i + 1;
    }
    proof {
        lemma_chosen_after_false(*ctx, *pre_resolved, conds, i as int);
        assert(conds.skip(i as int) =~= Seq::<CondModel>::empty());
    }
    Some(None)
}

} // verus!
