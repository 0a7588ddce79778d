//! Rendering the tokens of a compiled template, one after another, into raw output: text
//! as it is, entity, verb and variable tags, conditional blocks and sentence marks.
use vstd::prelude::*;
use crate::engine::{opt_str_view, PerspectiveEngine};
use crate::evaluator::{
    branch_conditions, chosen_branch, entity_token_step, failed_step, select_branch, variable_ref_text,
    verb_token_step,
};
use crate::grammar::VerbDictionary;
use crate::keymap::KeyMap;
use crate::models::{lookup, opt_view, RenderContext, TemplateEntity};
use crate::permutations::{
    case_view, case_views, key_subset, permutation_output, permutation_plan, plan_template_permutations, PermutationCase,
};
use crate::models::{ActorStance, Tense};
use crate::narrative::ordinals_below;
use crate::parser::TagSegment;
use crate::render::{apply_all_caps, caps_text};
use crate::tags::TagToken;
use crate::template::{tokens_model, tpl_model, ConditionalBranch, Template, Token};
use crate::template_keys::{seq_size, tpl_size};
use crate::text::{append_str, chars_of, string_of, subrange_of};
use crate::verbs::opt_forms;

verus! {

/// Marks a forced sentence boundary in raw output.
pub const SENTENCE_BREAK_MARK: char = '\u{1e}';
/// Marks, in raw output, that the next sentence boundary does not capitalise.
pub const NO_SENTENCE_BREAK_MARK: char = '\u{1f}';

/// The error for an entity tag met when an ordinal counter of the context has no room left.
pub open spec fn ordinal_room_message() -> Seq<char> {
    "Ordinal counters are exhausted"@
}

/// The error for a conditional block whose choice a number decides.
pub open spec fn numeric_condition_message() -> Seq<char> {
    "Numeric conditions are not evaluated"@
}

/// The output after a tag wrote `out1` over `out0`: with `caps`, what the tag wrote is put
/// in capitals.
pub open spec fn caps_tail(out0: Seq<char>, out1: Seq<char>, caps: bool) -> Seq<char> {
    if caps && out1.len() >= out0.len() {
        out1.take(out0.len() as int) + caps_text(out1.skip(out0.len() as int))
    } else {
        out1
    }
}

/// Whether `tt` is the verb tag that the template token `t` holds.
pub open spec fn same_verb(tt: TagToken, t: Token) -> bool {
    match (tt, t) {
        (
            TagToken::VerbRef { subject_key: s1, original_verb: o1, lower_verb: l1, dynamic_key: d1, dynamic_fallback: f1, forced_present: p1, forced_past: q1, flags: g1 },
            Token::VerbRef { subject_key: s2, original_verb: o2, lower_verb: l2, dynamic_key: d2, dynamic_fallback: f2, forced_present: p2, forced_past: q2, flags: g2 },
        ) => s1 == s2 && o1 == o2 && l1 == l2 && d1 == d2 && f1 == f2 && opt_forms(p1) == opt_forms(p2) && opt_forms(q1) == opt_forms(q2) && g1 == g2,
        _ => false,
    }
}

/// What rendering one token does. Text is written as it is, and a sentence mark as its
/// character. An entity tag fails while an ordinal counter is at `usize::MAX - 1` or
/// above; otherwise it is rendered as `entity_token_step` says. A verb tag is rendered as
/// `verb_token_step` says and a variable tag as `variable_ref_text` says; what a tag marked
/// for capitals wrote is put in capitals. A conditional block renders the body of the
/// branch it takes (`chosen_branch`), or its fallback, or nothing; it fails when a number
/// decides its choice.
pub open spec fn token_step(
    ctx0: RenderContext,
    ctx2: RenderContext,
    out0: Seq<char>,
    out2: Seq<char>,
    t: Token,
    future: Seq<Seq<char>>,
    custom: Map<Seq<char>, (Seq<char>, Seq<char>)>,
    pre: KeyMap<&TemplateEntity>,
    r: Result<(), String>,
) -> bool
    decreases t, 0nat,
{
    match t {
        Token::Literal(s) => ctx2 == ctx0 && out2 == out0 + s@ && r is Ok,
        Token::EntityRef { key, article, p_type, owner_key, owner_flags, adjectives, flags } => if !ordinals_below(ctx0, usize::MAX - 1) {
            failed_step(ctx0, ctx2, out0, out2, r, ordinal_room_message())
        } else {
            exists|out1: Seq<char>|
                #[trigger] entity_token_step(ctx0, ctx2, out0, out1, key, article, p_type, owner_key, owner_flags, adjectives, flags, future, pre, r)
                    && out2 == caps_tail(out0, out1, r is Ok && flags.all_caps)
        },
        Token::VerbRef { flags, .. } => exists|tt: TagToken, out1: Seq<char>|
            #[trigger] verb_token_step(ctx0, ctx2, out0, out1, tt, custom, pre, r) && same_verb(tt, t)
                && out2 == caps_tail(out0, out1, r is Ok && flags.all_caps),
        Token::VariableRef { key, fallback, flags } => ctx2 == ctx0 && match variable_ref_text(ctx0, pre, key@, opt_view(fallback), flags) {
            Ok(text) => r is Ok && out2 == caps_tail(out0, out0 + text, flags.all_caps),
            Err(e) => r matches Err(m) && m@ == e && out2 == out0,
        },
        Token::Conditional { branches, fallback } => match chosen_branch(ctx0, pre, branch_conditions(branches@)) {
            Some(Some(i)) => i < branches@.len() && branch_step(ctx0, ctx2, out0, out2, branches@, i as int, future, custom, pre, r),
            Some(None) => match fallback {
                Some(f) => tokens_step(ctx0, ctx2, out0, out2, f@, f@.len(), future, custom, pre, r),
                None => ctx2 == ctx0 && out2 == out0 && r is Ok,
            },
            None => failed_step(ctx0, ctx2, out0, out2, r, numeric_condition_message()),
        },
        Token::SentenceBreak => ctx2 == ctx0 && out2 == out0.push(SENTENCE_BREAK_MARK) && r is Ok,
        Token::NoSentenceBreak => ctx2 == ctx0 && out2 == out0.push(NO_SENTENCE_BREAK_MARK) && r is Ok,
    }
}

/// Rendering the body of the `i`-th branch.
pub open spec fn branch_step(
    ctx0: RenderContext,
    ctx2: RenderContext,
    out0: Seq<char>,
    out2: Seq<char>,
    bs: Seq<ConditionalBranch>,
    i: int,
    future: Seq<Seq<char>>,
    custom: Map<Seq<char>, (Seq<char>, Seq<char>)>,
    pre: KeyMap<&TemplateEntity>,
    r: Result<(), String>,
) -> bool
    decreases bs, 0nat,
{
    if 0 <= i < bs.len() {
        tokens_step(ctx0, ctx2, out0, out2, bs[i].body@, bs[i].body@.len(), future, custom, pre, r)
    } else {
        false
    }
}

/// A point between two tokens: the context, the output and the result so far.
pub closed spec fn step_point(ctx: RenderContext, out: Seq<char>, r: Result<(), String>) -> bool {
    true
}

/// What rendering the first `n` tokens does: each in turn (`token_step`), the first error
/// stopping the rendering.
pub open spec fn tokens_step(
    ctx0: RenderContext,
    ctx2: RenderContext,
    out0: Seq<char>,
    out2: Seq<char>,
    s: Seq<Token>,
    n: nat,
    future: Seq<Seq<char>>,
    custom: Map<Seq<char>, (Seq<char>, Seq<char>)>,
    pre: KeyMap<&TemplateEntity>,
    r: Result<(), String>,
) -> bool
    decreases s, n,
{
    if n == 0 || n > s.len() {
        ctx2 == ctx0 && out2 == out0 && r is Ok
    } else {
        exists|ctx1: RenderContext, out1: Seq<char>, r1: Result<(), String>|
            #![trigger step_point(ctx1, out1, r1)]
            tokens_step(ctx0, ctx1, out0, out1, s, (n - 1) as nat, future, custom, pre, r1) && match r1 {
                Err(_) => ctx2 == ctx1 && out2 == out1 && r == r1,
                Ok(_) => token_step(ctx1, ctx2, out1, out2, s[n - 1], future, custom, pre, r),
            }
    }
}

proof fn lemma_error_persists(
    ctx0: RenderContext,
    ctx: RenderContext,
    out0: Seq<char>,
    out: Seq<char>,
    s: Seq<Token>,
    k: nat,
    m: nat,
    future: Seq<Seq<char>>,
    custom: Map<Seq<char>, (Seq<char>, Seq<char>)>,
    pre: KeyMap<&TemplateEntity>,
    r: Result<(), String>,
)
    requires
        r is Err,
        1 <= k <= m <= s.len(),
        tokens_step(ctx0, ctx, out0, out, s, k, future, custom, pre, r),
    ensures
        tokens_step(ctx0, ctx, out0, out, s, m, future, custom, pre, r),
    decreases m - k,
{
    if m > k {
        lemma_error_persists(ctx0, ctx, out0, out, s, k, (m - 1) as nat, future, custom, pre, r);
        assert(step_point(ctx, out, r));
    }
}

proof fn lemma_step_extends(
    ctx0: RenderContext,
    ctx1: RenderContext,
    ctx2: RenderContext,
    out0: Seq<char>,
    out1: Seq<char>,
    out2: Seq<char>,
    s: Seq<Token>,
    n: nat,
    future: Seq<Seq<char>>,
    custom: Map<Seq<char>, (Seq<char>, Seq<char>)>,
    pre: KeyMap<&TemplateEntity>,
    r0: Result<(), String>,
    r: Result<(), String>,
)
    requires
        n < s.len(),
        r0 is Ok,
        tokens_step(ctx0, ctx1, out0, out1, s, n, future, custom, pre, r0),
        token_step(ctx1, ctx2, out1, out2, s[n as int], future, custom, pre, r),
    ensures
        tokens_step(ctx0, ctx2, out0, out2, s, n + 1, future, custom, pre, r),
{
    assert(step_point(ctx1, out1, r0));
}

fn ordinals_have_room(ctx: &RenderContext) -> (r: bool)
    ensures
        r == ordinals_below(*ctx, usize::MAX - 1),
{
    let mut i: usize = 0;
    while i < ctx.ordinals.len()
        invariant
            i <= ctx.ordinals.len(),
            forall|k: int| 0 <= k < i ==> (#[trigger] ctx.ordinals@[k]).1.next_ordinal < usize::MAX - 1,
        decreases ctx.ordinals.len() - i,
    {
        if ctx.ordinals[i].1.next_ordinal >= usize::MAX - 1 {
            return false;
        }
        i = i + 1;
    }
    true
}

fn message(text: &str) -> (r: String)
    ensures
        r@ == text@,
{
    String::from_str(text)
}

fn clone_segment(s: &TagSegment) -> (r: TagSegment)
    ensures
        r == *s,
{
    match s {
        TagSegment::Literal(t) => TagSegment::Literal(t.clone()),
        TagSegment::Variable { key, fallback } => TagSegment::Variable {
            key: key.clone(),
            fallback: clone_opt(fallback),
        },
    }
}

fn clone_opt_segment(s: &Option<TagSegment>) -> (r: Option<TagSegment>)
    ensures
        r == *s,
{
    match s {
        Some(x) => Some(clone_segment(x)),
        None => None,
    }
}

fn clone_opt(s: &Option<String>) -> (r: Option<String>)
    ensures
        r == *s,
{
    match s {
        Some(x) => Some(x.clone()),
        None => None,
    }
}

fn clone_forms(f: &Option<Vec<String>>) -> (r: Option<Vec<String>>)
    ensures
        opt_forms(r) == opt_forms(*f),
{
    match f {
        Some(v) => Some(crate::models::clone_strings(v)),
        None => None,
    }
}

/// Puts in capitals what was written after the first `start` characters.
fn capitalize_tail(out: &mut String, start: usize)
    ensures
        final(out)@ == caps_tail(old(out)@.take(start as int), old(out)@, true) || old(out)@.len() < start,
        old(out)@.len() >= start ==> final(out)@ == old(out)@.take(start as int) + caps_text(old(out)@.skip(start as int)),
        old(out)@.len() < start ==> final(out)@ == old(out)@,
{
    let all = chars_of(out.as_str());
    if all.len() < start {
        return;
    }
    let head = subrange_of(&all, 0, start);
    let tail = subrange_of(&all, start, all.len());
    let mut fresh = string_of(&head);
    apply_all_caps(string_of(&tail).as_str(), &mut fresh);
    assert(head@ =~= all@.take(start as int));
    assert(tail@ =~= all@.skip(start as int));
    *out = fresh;
}

impl PerspectiveEngine {
    /// Renders one token of a template (see `token_step`).
    pub fn render_token<'c>(
        ctx: &mut RenderContext<'c>,
        raw_output: &mut String,
        token: &Token,
        future_keys: &Vec<&str>,
        custom: &VerbDictionary,
        pre_resolved: &KeyMap<&'c TemplateEntity>,
    ) -> (r: Result<(), String>)
        ensures
            token_step(*old(ctx), *final(ctx), old(raw_output)@, final(raw_output)@, *token, crate::engine::str_views(future_keys@), custom.map(), *pre_resolved, r),
        decreases tpl_size(tpl_model(*token)), 0nat,
    {
        let ghost ctx0 = *ctx;
        let ghost out0 = raw_output@;
        let start = chars_of(raw_output.as_str()).len();
        match token {
            Token::Literal(s) => {
                let mut all = chars_of(raw_output.as_str());
                append_str(&mut all, s.as_str());
                *raw_output = string_of(&all);
                Ok(())
            },
            Token::EntityRef { key, article, p_type, owner_key, owner_flags, adjectives, flags } => {
                if !ordinals_have_room(ctx) {
                    return Err(message("Ordinal counters are exhausted"));
                }
                let r = PerspectiveEngine::render_entity_token(ctx, raw_output, key, article, p_type, owner_key, *owner_flags, adjectives, *flags, future_keys, pre_resolved);
                let ghost out1 = raw_output@;
                assert(entity_token_step(ctx0, *ctx, out0, out1, *key, *article, *p_type, *owner_key, *owner_flags, *adjectives, *flags, crate::engine::str_views(future_keys@), *pre_resolved, r));
                if r.is_ok() && flags.all_caps {
                    capitalize_tail(raw_output, start);
                }
                r
            },
            Token::VerbRef { subject_key, original_verb, lower_verb, dynamic_key, dynamic_fallback, forced_present, forced_past, flags } => {
                let tt = TagToken::VerbRef {
                    subject_key: clone_opt_segment(subject_key),
                    original_verb: original_verb.clone(),
                    lower_verb: lower_verb.clone(),
                    dynamic_key: clone_opt(dynamic_key),
                    dynamic_fallback: clone_opt(dynamic_fallback),
                    forced_present: clone_forms(forced_present),
                    forced_past: clone_forms(forced_past),
                    flags: *flags,
                };
                assert(same_verb(tt, *token));
                let r = PerspectiveEngine::render_verb_token(ctx, raw_output, &tt, custom, pre_resolved);
                let ghost out1 = raw_output@;
                assert(verb_token_step(ctx0, *ctx, out0, out1, tt, custom.map(), *pre_resolved, r));
                if r.is_ok() && flags.all_caps {
                    capitalize_tail(raw_output, start);
                }
                r
            },
            Token::VariableRef { key, fallback, flags } => {
                let fb: Option<&str> = match fallback {
                    Some(f) => Some(f.as_str()),
                    None => None,
                };
                assert(opt_str_view(fb) == opt_view(*fallback));
                let r = PerspectiveEngine::render_variable_ref(&*ctx, raw_output, key.as_str(), fb, *flags, pre_resolved);
                if r.is_ok() && flags.all_caps {
                    capitalize_tail(raw_output, start);
                }
                r
            },
            Token::Conditional { branches, fallback } => {
                proof {
                    crate::template::lemma_branches(branches@, branches@.len());
                    crate::template_keys::lemma_tpl_size_pos(tpl_model(*token));
                }
                match select_branch(&*ctx, branches, pre_resolved) {
                    Some(Some(i)) => {
                        let ghost bm = crate::template::branches_model(branches@, branches@.len());
                        proof {
                            crate::template::lemma_tpl_seq(branches@[i as int].body@, branches@[i as int].body@.len());
                            assert(bm[i as int].1 == tokens_model(branches@[i as int].body@));
                            crate::template_keys::lemma_branch_size(bm, bm.len(), i as int);
                            assert(branch_conditions(branches@).len() == branches@.len());
                        }
                        PerspectiveEngine::render_tokens(ctx, raw_output, &branches[i].body, future_keys, custom, pre_resolved)
                    },
                    Some(None) => match fallback {
                        Some(f) => {
                            proof {
                                crate::template::lemma_tpl_seq(f@, f@.len());
                            }
                            PerspectiveEngine::render_tokens(ctx, raw_output, f, future_keys, custom, pre_resolved)
                        },
                        None => Ok(()),
                    },
                    None => Err(message("Numeric conditions are not evaluated")),
                }
            },
            Token::SentenceBreak => {
                let mut all = chars_of(raw_output.as_str());
                all.push(SENTENCE_BREAK_MARK);
                *raw_output = string_of(&all);
                Ok(())
            },
            Token::NoSentenceBreak => {
                let mut all = chars_of(raw_output.as_str());
                all.push(NO_SENTENCE_BREAK_MARK);
                *raw_output = string_of(&all);
                Ok(())
            },
        }
    }

    /// Renders the tokens of a template in order (see `tokens_step`); the first error stops
    /// the rendering.
    pub fn render_tokens<'c>(
        ctx: &mut RenderContext<'c>,
        raw_output: &mut String,
        tokens: &Vec<Token>,
        future_keys: &Vec<&str>,
        custom: &VerbDictionary,
        pre_resolved: &KeyMap<&'c TemplateEntity>,
    ) -> (r: Result<(), String>)
        ensures
            tokens_step(*old(ctx), *final(ctx), old(raw_output)@, final(raw_output)@, tokens@, tokens@.len(), crate::engine::str_views(future_keys@), custom.map(), *pre_resolved, r),
        decreases seq_size(tokens_model(tokens@), tokens@.len()), 1nat,
    {
        let ghost ctx0 = *ctx;
        let ghost out0 = raw_output@;
        let ghost fut = crate::engine::str_views(future_keys@);
        let ghost tm = tokens_model(tokens@);
        proof {
            crate::template::lemma_tpl_seq(tokens@, tokens@.len());
        }
        let mut last: Result<(), String> = Ok(());
        let mut i: usize = 0;
        while i < tokens.len()
            invariant
                i <= tokens.len(),
                tm == tokens_model(tokens@),
                tm.len() == tokens@.len(),
                forall|k: int| 0 <= k < tokens@.len() ==> #[trigger] tm[k] == tpl_model(tokens@[k]),
                fut == crate::engine::str_views(future_keys@),
                ctx0 == *old(ctx),
                out0 == old(raw_output)@,
                last is Ok,
                tokens_step(ctx0, *ctx, out0, raw_output@, tokens@, i as nat, fut, custom.map(), *pre_resolved, last),
            decreases tokens.len() - i,
        {
            let ghost ci = *ctx;
            let ghost oi = raw_output@;
            proof {
                crate::template_keys::lemma_seq_size(tm, tm.len(), i as int);
            }
            let r = PerspectiveEngine::render_token(ctx, raw_output, &tokens[i], future_keys, custom, pre_resolved);
            proof {
                lemma_step_extends(ctx0, ci, *ctx, out0, oi, raw_output@, tokens@, i as nat, fut, custom.map(), *pre_resolved, last, r);
            }
            if r.is_err() {
                proof {
                    lemma_error_persists(ctx0, *ctx, out0, raw_output@, tokens@, i as nat + 1, tokens@.len(), fut, custom.map(), *pre_resolved, r);
                }
                return r;
            }
            last = r;
            i = i + 1;
        }
        last
    }
}


/// The entities resolved ahead of rendering: each template key that names an entity of the
/// context (see `entity_for`), mapped to it.
pub open spec fn pre_resolution(ctx: RenderContext, keys: Seq<Seq<char>>, pre: KeyMap<&TemplateEntity>) -> bool {
    forall|k: Seq<char>| #![trigger pre.map().contains_key(k)]
        (pre.map().contains_key(k) <==> (keys.contains(k) && crate::context::entity_for(ctx, k) is Some))
            && (pre.map().contains_key(k) ==> crate::context::entity_for(ctx, k) == Some(*pre.map()[k]))
}

/// The context after a successful render: its memory cleared when it clears itself after
/// each render, else as the tokens left it.
pub open spec fn after_render(ctx1: RenderContext, ctx2: RenderContext) -> bool {
    if ctx1.auto_clear {
        &&& crate::context::same_setup(ctx2, ctx1)
        &&& ctx2.last_mentioned is None
        &&& ctx2.active_subject is None
        &&& ctx2.recent_entities@.len() == 0
        &&& ctx2.ordinals@.len() == 0
        &&& ctx2.ordinal_history@.len() == 0
    } else {
        ctx2 == ctx1
    }
}

/// What rendering a template does, up to its raw output: the template's keys are resolved
/// ahead (`pre_resolution`); its tokens are rendered into an empty output (`tokens_step`),
/// with the keys as the keys still to come when the context looks ahead; a failure is the
/// error, and a success gives the output, after which a context that clears itself is
/// cleared (`after_render`).
pub open spec fn render_raw_step(
    ctx0: RenderContext,
    ctx2: RenderContext,
    template: Template,
    custom: Map<Seq<char>, (Seq<char>, Seq<char>)>,
    r: Result<String, String>,
) -> bool {
    let keys = crate::grammar::string_views(template.template_keys@);
    let future = if ctx0.lookahead { keys } else { Seq::<Seq<char>>::empty() };
    exists|pre: KeyMap<&TemplateEntity>, ctx1: RenderContext, out: Seq<char>, r1: Result<(), String>|
        #![trigger step_point(ctx1, out, r1), pre_resolution(ctx0, keys, pre)]
        pre_resolution(ctx0, keys, pre) && step_point(ctx1, out, r1)
            && tokens_step(ctx0, ctx1, Seq::<char>::empty(), out, template.tokens@, template.tokens@.len(), future, custom, pre, r1)
            && match r1 {
                Ok(_) => r matches Ok(text) && text@ == out && after_render(ctx1, ctx2),
                Err(e) => r == Err::<String, String>(e) && ctx2 == ctx1,
            }
}

impl PerspectiveEngine {
    /// Renders a template into its raw output, before sentence capitalisation (see
    /// `render_raw_step`); `custom` is the dictionary of irregular verbs added at run time.
    pub fn render_raw<'c>(template: &Template, ctx: &mut RenderContext<'c>, custom: &VerbDictionary) -> (r: Result<String, String>)
        ensures
            render_raw_step(*old(ctx), *final(ctx), *template, custom.map(), r),
    {
        let ghost ctx0 = *ctx;
        let ghost keys = crate::grammar::string_views(template.template_keys@);
        let mut future_keys: Vec<&str> = Vec::new();
        if ctx.lookahead {
            let mut j: usize = 0;
            while j < template.template_keys.len()
                invariant
                    j <= template.template_keys.len(),
                    keys == crate::grammar::string_views(template.template_keys@),
                    crate::engine::str_views(future_keys@) == keys.take(j as int),
                decreases template.template_keys.len() - j,
            {
                let kj = template.template_keys[j].as_str();
                assert(kj@ == keys[j as int]);
                let ghost before = crate::engine::str_views(future_keys@);
                future_keys.push(kj);
                assert(crate::engine::str_views(future_keys@) =~= before.push(kj@));
                assert(keys.take(j + 1) =~= keys.take(j as int).push(keys[j as int]));
                j = j + 1;
            }
            assert(keys.take(j as int) =~= keys);
        } else {
            assert(crate::engine::str_views(future_keys@) =~= Seq::<Seq<char>>::empty());
        }
        let mut pre: KeyMap<&'c TemplateEntity> = KeyMap::new();
        let mut i: usize = 0;
        while i < template.template_keys.len()
            invariant
                i <= template.template_keys.len(),
                keys == crate::grammar::string_views(template.template_keys@),
                *ctx == ctx0,
                pre_resolution(ctx0, keys.take(i as int), pre),
            decreases template.template_keys.len() - i,
        {
            let ghost before = pre;
            let k = &template.template_keys[i];
            assert(keys.take(i + 1) =~= keys.take(i as int).push(k@));
            match ctx.get_entity(k.as_str()) {
                Some(e) => {
                    pre.insert(k.clone(), e);
                    assert forall|q: Seq<char>| #![trigger pre.map().contains_key(q)]
                        (pre.map().contains_key(q) <==> (keys.take(i + 1).contains(q) && crate::context::entity_for(ctx0, q) is Some))
                        && (pre.map().contains_key(q) ==> crate::context::entity_for(ctx0, q) == Some(*pre.map()[q])) by {
                        assert(before.map().contains_key(q) ==> true);
                        if q == k@ {
                            assert(keys.take(i + 1)[i as int] == q);
                        } else if keys.take(i + 1).contains(q) {
                            let w = choose|w: int| 0 <= w < keys.take(i + 1).len() && #[trigger] keys.take(i + 1)[w] == q;
                            assert(keys.take(i as int)[w] == q);
                        }
                        if keys.take(i as int).contains(q) {
                            let w = choose|w: int| 0 <= w < keys.take(i as int).len() && #[trigger] keys.take(i as int)[w] == q;
                            assert(keys.take(i + 1)[w] == q);
                        }
                    }
                },
                None => {
                    assert forall|q: Seq<char>| #![trigger pre.map().contains_key(q)]
                        (pre.map().contains_key(q) <==> (keys.take(i + 1).contains(q) && crate::context::entity_for(ctx0, q) is Some))
                        && (pre.map().contains_key(q) ==> crate::context::entity_for(ctx0, q) == Some(*pre.map()[q])) by {
                        assert(before.map().contains_key(q) ==> true);
                        if keys.take(i + 1).contains(q) && q != k@ {
                            let w = choose|w: int| 0 <= w < keys.take(i + 1).len() && #[trigger] keys.take(i + 1)[w] == q;
                            assert(keys.take(i as int)[w] == q);
                        }
                        if keys.take(i as int).contains(q) {
                            let w = choose|w: int| 0 <= w < keys.take(i as int).len() && #[trigger] keys.take(i as int)[w] == q;
                            assert(keys.take(i + 1)[w] == q);
                        }
                    }
                },
            }
            i = i + 1;
        }
        assert(keys.take(i as int) =~= keys);
        let mut raw_output = String::new();
        let ghost fut = crate::engine::str_views(future_keys@);
        let r1 = PerspectiveEngine::render_tokens(ctx, &mut raw_output, &template.tokens, &future_keys, custom, &pre);
        let ghost ctx1 = *ctx;
        let ghost out = raw_output@;
        assert(step_point(ctx1, out, r1));
        assert(pre_resolution(ctx0, keys, pre));
        match r1 {
            Err(e) => Err(e),
            Ok(()) => {
                if ctx.auto_clear {
                    ctx.clear_anaphora();
                }
                Ok(raw_output)
            },
        }
    }
}


// ---------------------------------------------------------------------------
// Cases of a template test
// ---------------------------------------------------------------------------

/// Whether the `j`-th key of a case has an entity: its subset exists and holds the index.
pub open spec fn case_has_entity(
    keys: Seq<Seq<char>>,
    indices: Seq<usize>,
    subsets: Map<Seq<char>, Vec<TemplateEntity>>,
    bindings: Map<Seq<char>, String>,
    j: int,
) -> bool {
    &&& j < indices.len()
    &&& key_subset(subsets, bindings, keys[j]) matches Some(sub) && indices[j] < sub.len()
}

/// The entities of the first `n` keys of a case, by key (a later key replaces an earlier
/// one of the same name).
pub open spec fn case_entities(
    keys: Seq<Seq<char>>,
    indices: Seq<usize>,
    subsets: Map<Seq<char>, Vec<TemplateEntity>>,
    bindings: Map<Seq<char>, String>,
    n: nat,
) -> Map<Seq<char>, TemplateEntity>
    decreases n,
{
    if n == 0 {
        Map::empty()
    } else {
        let m = case_entities(keys, indices, subsets, bindings, (n - 1) as nat);
        let j = n - 1;
        if case_has_entity(keys, indices, subsets, bindings, j) {
            m.insert(keys[j], key_subset(subsets, bindings, keys[j])->0[indices[j] as int])
        } else {
            m
        }
    }
}

/// The context a case is rendered in: a new context for the case's viewer, with its stance
/// and tense, the lookahead setting, and each key mapped to its entity (`case_entities`).
pub open spec fn case_context(
    ctx: RenderContext,
    case: PermutationCase,
    keys: Seq<Seq<char>>,
    subsets: Map<Seq<char>, Vec<TemplateEntity>>,
    bindings: Map<Seq<char>, String>,
    lookahead: bool,
) -> bool {
    let m = case_entities(keys, case.entity_indices@, subsets, bindings, keys.len());
    &&& ctx.viewer_id@ == case.viewer_id@
    &&& ctx.stance == case.stance
    &&& ctx.tense == case.tense
    &&& ctx.lookahead == lookahead
    &&& ctx.ordinal_word_threshold == 999
    &&& !ctx.strict_diacritics
    &&& ctx.anaphora_limit == 15
    &&& ctx.adjective_disambiguation_limit == 5
    &&& !ctx.auto_clear
    &&& ctx.last_mentioned is None
    &&& ctx.active_subject is None
    &&& ctx.recent_entities@.len() == 0
    &&& ctx.ordinals@.len() == 0
    &&& ctx.ordinal_history@.len() == 0
    &&& ctx.variables@.len() == 0
    &&& forall|k: Seq<char>| #![trigger lookup(ctx.entities@, k)]
        (lookup(ctx.entities@, k) is Some <==> m.contains_key(k))
            && (m.contains_key(k) ==> *lookup(ctx.entities@, k)->0 == m[k])
}

/// The output line of a case (see `permutation_output`) once it is rendered.
pub open spec fn case_line(case: PermutationCase, r: Result<String, String>) -> Seq<char> {
    case.description@ + (match r {
        Ok(text) => text@,
        Err(e) => "ERROR: "@ + e@,
    })
}

impl PerspectiveEngine {
    /// Renders one case of a template test (see `case_context`, `render_raw_step`) and
    /// gives its output line (see `case_line`).
    pub fn render_case(
        template: &Template,
        case: &PermutationCase,
        subsets: &KeyMap<Vec<TemplateEntity>>,
        bindings: &KeyMap<String>,
        lookahead: bool,
        custom: &VerbDictionary,
    ) -> (r: String)
        ensures
            exists|ctx0: RenderContext, ctx2: RenderContext, rr: Result<String, String>|
                #![trigger render_raw_step(ctx0, ctx2, *template, custom.map(), rr)]
                case_context(ctx0, *case, crate::grammar::string_views(template.template_keys@), subsets.map(), bindings.map(), lookahead)
                    && render_raw_step(ctx0, ctx2, *template, custom.map(), rr) && r@ == case_line(*case, rr),
    {
        let ghost keys = crate::grammar::string_views(template.template_keys@);
        let ghost sm = subsets.map();
        let ghost bm = bindings.map();
        let ghost ix = case.entity_indices@;
        let mut ctx = RenderContext::new(case.viewer_id.as_str()).with_stance(case.stance).with_tense(case.tense).with_lookahead(lookahead);
        let mut j: usize = 0;
        while j < template.template_keys.len()
            invariant
                j <= template.template_keys.len(),
                keys == crate::grammar::string_views(template.template_keys@),
                sm == subsets.map(),
                bm == bindings.map(),
                ix == case.entity_indices@,
                ctx.viewer_id@ == case.viewer_id@,
                ctx.stance == case.stance,
                ctx.tense == case.tense,
                ctx.lookahead == lookahead,
                ctx.ordinal_word_threshold == 999,
                !ctx.strict_diacritics,
                ctx.anaphora_limit == 15,
                ctx.adjective_disambiguation_limit == 5,
                !ctx.auto_clear,
                ctx.last_mentioned is None,
                ctx.active_subject is None,
                ctx.recent_entities@.len() == 0,
                ctx.ordinals@.len() == 0,
                ctx.ordinal_history@.len() == 0,
                ctx.variables@.len() == 0,
                forall|k: Seq<char>| #![trigger lookup(ctx.entities@, k)]
                    (lookup(ctx.entities@, k) is Some <==> case_entities(keys, ix, sm, bm, j as nat).contains_key(k))
                        && (case_entities(keys, ix, sm, bm, j as nat).contains_key(k) ==> *lookup(ctx.entities@, k)->0 == case_entities(keys, ix, sm, bm, j as nat)[k]),
            decreases template.template_keys.len() - j,
        {
            let key = template.template_keys[j].as_str();
            assert(key@ == keys[j as int]);
            let (_, found) = crate::permutations::subset_for_key(subsets, bindings, key);
            let ghost before = case_entities(keys, ix, sm, bm, j as nat);
            match found {
                Some(sub) => {
                    if j < case.entity_indices.len() && case.entity_indices[j] < sub.len() {
                        let ghost c0 = ctx;
                        ctx = ctx.with_entity(key, &sub[case.entity_indices[j]]);
                        assert(case_has_entity(keys, ix, sm, bm, j as int));
                        assert forall|k: Seq<char>| #![trigger lookup(ctx.entities@, k)]
                            (lookup(ctx.entities@, k) is Some <==> case_entities(keys, ix, sm, bm, (j + 1) as nat).contains_key(k))
                                && (case_entities(keys, ix, sm, bm, (j + 1) as nat).contains_key(k) ==> *lookup(ctx.entities@, k)->0 == case_entities(keys, ix, sm, bm, (j + 1) as nat)[k]) by {
                            if k != key@ {
                                assert(lookup(ctx.entities@, k) == lookup(c0.entities@, k));
                            }
                        }
                    } else {
                        assert(!case_has_entity(keys, ix, sm, bm, j as int));
                        assert(case_entities(keys, ix, sm, bm, (j + 1) as nat) == before);
                    }
                },
                None => {
                    assert(!case_has_entity(keys, ix, sm, bm, j as int));
                    assert(case_entities(keys, ix, sm, bm, (j + 1) as nat) == before);
                },
            }
            j = j + 1;
        }
        let ghost ctx0 = ctx;
        assert(case_context(ctx0, *case, keys, sm, bm, lookahead));
        let rr = PerspectiveEngine::render_raw(template, &mut ctx, custom);
        let ghost ctx2 = ctx;
        let ghost rrg = rr;
        let line = permutation_output(case, rr);
        assert(render_raw_step(ctx0, ctx2, *template, custom.map(), rrg));
        line
    }
}


/// Whether `line` is what rendering the planned case `c` gives (see `render_case`).
pub open spec fn case_rendered(
    template: Template,
    c: (Seq<char>, ActorStance, Tense, Seq<usize>, Seq<char>),
    subsets: Map<Seq<char>, Vec<TemplateEntity>>,
    bindings: Map<Seq<char>, String>,
    lookahead: bool,
    custom: Map<Seq<char>, (Seq<char>, Seq<char>)>,
    line: Seq<char>,
) -> bool {
    exists|case: PermutationCase, ctx0: RenderContext, ctx2: RenderContext, rr: Result<String, String>|
        #![trigger render_raw_step(ctx0, ctx2, template, custom, rr), case_view(case)]
        case_view(case) == c && case_context(ctx0, case, crate::grammar::string_views(template.template_keys@), subsets, bindings, lookahead)
            && render_raw_step(ctx0, ctx2, template, custom, rr) && line == case_line(case, rr)
}

/// What testing a template under every combination gives: the plan's error (see
/// `permutation_plan`), or one line for each planned case, in order, each that case
/// rendered (`case_rendered`).
pub open spec fn generated(
    template: Template,
    viewer_ids: Seq<String>,
    stances: Seq<ActorStance>,
    tenses: Seq<Tense>,
    subsets: Map<Seq<char>, Vec<TemplateEntity>>,
    bindings: Map<Seq<char>, String>,
    lookahead: bool,
    custom: Map<Seq<char>, (Seq<char>, Seq<char>)>,
    r: Result<Vec<String>, String>,
) -> bool {
    match permutation_plan(crate::grammar::string_views(template.template_keys@), crate::grammar::string_views(viewer_ids), stances, tenses, subsets, bindings, lookahead) {
        Err(e) => r matches Err(m) && m@ == e,
        Ok(cases) => r matches Ok(lines) && lines.len() == cases.len()
            && forall|i: int| 0 <= i < cases.len() ==> case_rendered(template, #[trigger] cases[i], subsets, bindings, lookahead, custom, lines@[i]@),
    }
}

impl PerspectiveEngine {
    /// Tests a template under every combination of viewer, stance, tense and entities: the
    /// plan (`permutation_plan` over the template's keys) or its error, and then each case
    /// rendered in its own context (`case_rendered`), in the plan's order.
    pub fn generate_template_permutations(
        template: &Template,
        viewer_ids: &Vec<String>,
        stances: &Vec<ActorStance>,
        tenses: &Vec<Tense>,
        subsets: &KeyMap<Vec<TemplateEntity>>,
        bindings: &KeyMap<String>,
        lookahead: bool,
        custom: &VerbDictionary,
    ) -> (r: Result<Vec<String>, String>)
        ensures
            generated(*template, viewer_ids@, stances@, tenses@, subsets.map(), bindings.map(), lookahead, custom.map(), r),
    {
        let cases = match plan_template_permutations(&template.template_keys, viewer_ids, stances, tenses, subsets, bindings, lookahead) {
            Ok(c) => c,
            Err(e) => {
                return Err(e);
            },
        };
        let ghost cm = case_views(cases@);
        let mut lines: Vec<String> = Vec::new();
        let mut i: usize = 0;
        while i < cases.len()
            invariant
                i <= cases.len(),
                cm == case_views(cases@),
                lines.len() == i,
                forall|k: int| 0 <= k < i ==> case_rendered(*template, #[trigger] cm[k], subsets.map(), bindings.map(), lookahead, custom.map(), lines@[k]@),
            decreases cases.len() - i,
        {
            let line = PerspectiveEngine::render_case(template, &cases[i], subsets, bindings, lookahead, custom);
            assert(cm[i as int] == case_view(cases@[i as int]));
            lines.push(line);
            i = i + 1;
        }
        Ok(lines)
    }
}

} // verus!
