//! Compiled templates: the tokens of a template text, with its conditional blocks nested.
use vstd::prelude::*;
use crate::expressions::{cond_model, expr_tokens, parsed_condition, CondModel, Condition};
use crate::parser::{scan_to_close, unclosed_message, utf8_len, TagFlags, TagSegment};
use crate::tags::{entity_tag, token_model, variable_tag, verb_tag, TagToken, TokenModel};
use crate::template_keys::{extract_keys, keys_view, template_token_keys, with_new_keys};
use crate::text::{
    append_chars, append_str, chars_eq, chars_of, decimal, find_from, string_of, subrange_of, trim, trim_start,
    usize_to_string,
};

verus! {

// ---------------------------------------------------------------------------
// Tokens
// ---------------------------------------------------------------------------

/// A parsed unit of a template.
#[derive(Debug, PartialEq)]
pub enum Token {
    /// Text inserted as it is.
    Literal(String),
    /// An entity reference, e.g. `{source}`, `{a:source}`, `{the:target:obj}` or
    /// `{source's glowing target}`.
    EntityRef {
        /// The key of the entity in the context.
        key: TagSegment,
        /// The article to put before the name, if any.
        article: Option<TagSegment>,
        /// The pronoun type asked for, if any.
        p_type: Option<TagSegment>,
        /// The owner's key in a narrative possessive.
        owner_key: Option<TagSegment>,
        /// The modifiers of the owner.
        owner_flags: TagFlags,
        /// The adjectives between the owner and the target, if any.
        adjectives: Option<TagSegment>,
        /// The modifiers of the tag.
        flags: TagFlags,
    },
    /// A verb reference, e.g. `[source:pulse]`.
    VerbRef {
        /// The subject the verb agrees with, if any.
        subject_key: Option<TagSegment>,
        /// The verb as written.
        original_verb: String,
        /// The verb in lower case.
        lower_verb: String,
        /// A variable whose value is the verb, if any.
        dynamic_key: Option<String>,
        /// The text used when that variable is missing, if any.
        dynamic_fallback: Option<String>,
        /// Forced present forms, if any.
        forced_present: Option<Vec<String>>,
        /// Forced past forms, if any.
        forced_past: Option<Vec<String>>,
        /// The modifiers of the tag.
        flags: TagFlags,
    },
    /// A variable reference, e.g. `{$weather}`.
    VariableRef {
        /// The key of the variable.
        key: String,
        /// The text used when the variable is missing, if any.
        fallback: Option<String>,
        /// The modifiers of the tag.
        flags: TagFlags,
    },
    /// A block evaluated at render time: the first branch whose condition holds, else the
    /// fallback.
    Conditional {
        /// The `if` and `elif` branches.
        branches: Vec<ConditionalBranch>,
        /// The `else` body, if any.
        fallback: Option<Vec<Token>>,
    },
    /// Forces a new sentence boundary.
    SentenceBreak,
    /// Keeps the next sentence boundary from capitalising.
    NoSentenceBreak,
}

/// One branch of a conditional block.
#[derive(Debug, PartialEq)]
pub struct ConditionalBranch {
    /// The condition under which the branch is taken.
    pub condition: Condition,
    /// The body of the branch.
    pub body: Vec<Token>,
}

/// The plain-value model of a template token.
pub enum TplModel {
    /// Literal text.
    Literal(Seq<char>),
    /// A tag.
    Tag(TokenModel),
    /// A conditional block: the branches (condition and body) and the fallback body.
    Conditional {
        /// The branches.
        branches: Seq<(CondModel, Seq<TplModel>)>,
        /// The fallback.
        fallback: Option<Seq<TplModel>>,
    },
}

/// The model of a template token.
pub open spec fn tpl_model(t: Token) -> TplModel
    decreases t, 0nat,
{
    match t {
        Token::Literal(s) => TplModel::Literal(s@),
        Token::EntityRef { key, article, p_type, owner_key, owner_flags, adjectives, flags } => TplModel::Tag(
            token_model(TagToken::EntityRef { key, article, p_type, owner_key, owner_flags, adjectives, flags }),
        ),
        Token::VerbRef { subject_key, original_verb, lower_verb, dynamic_key, dynamic_fallback, forced_present, forced_past, flags } =>
            TplModel::Tag(token_model(TagToken::VerbRef {
                subject_key,
                original_verb,
                lower_verb,
                dynamic_key,
                dynamic_fallback,
                forced_present,
                forced_past,
                flags,
            })),
        Token::VariableRef { key, fallback, flags } => TplModel::Tag(token_model(TagToken::VariableRef { key, fallback, flags })),
        Token::Conditional { branches, fallback } => TplModel::Conditional {
            branches: branches_model(branches@, branches@.len()),
            fallback: match fallback {
                Some(f) => Some(tpl_seq_model(f@, f@.len())),
                None => None,
            },
        },
        Token::SentenceBreak => TplModel::Tag(TokenModel::SentenceBreak),
        Token::NoSentenceBreak => TplModel::Tag(TokenModel::NoSentenceBreak),
    }
}

/// The models of the first `n` tokens of a sequence.
pub open spec fn tpl_seq_model(s: Seq<Token>, n: nat) -> Seq<TplModel>
    decreases s, n,
{
    if n == 0 || n > s.len() {
        seq![]
    } else {
        tpl_seq_model(s, (n - 1) as nat).push(tpl_model(s[n - 1]))
    }
}

/// The models of the first `n` branches of a sequence.
pub open spec fn branches_model(s: Seq<ConditionalBranch>, n: nat) -> Seq<(CondModel, Seq<TplModel>)>
    decreases s, n,
{
    if n == 0 || n > s.len() {
        seq![]
    } else {
        branches_model(s, (n - 1) as nat).push((cond_model(s[n - 1].condition), tpl_seq_model(s[n - 1].body@, s[n - 1].body@.len())))
    }
}

/// The models of a list of tokens.
pub open spec fn tokens_model(v: Seq<Token>) -> Seq<TplModel> {
    tpl_seq_model(v, v.len())
}

// ---------------------------------------------------------------------------
// Compiling: the scan
// ---------------------------------------------------------------------------

/// The nesting depth allowed by default for conditional blocks and conditions.
pub const DEFAULT_MAX_DEPTH: usize = 64;

/// An open block while a template is scanned: the root, an `if`/`elif` branch being read
/// (its condition, the branches before it and its body so far), or an `else` body.
pub enum FrameModel {
    /// The template itself.
    Root(Seq<TplModel>),
    /// A branch with a condition.
    If {
        /// Its condition.
        condition: CondModel,
        /// The branches closed before it.
        branches: Seq<(CondModel, Seq<TplModel>)>,
        /// Its body so far.
        body: Seq<TplModel>,
    },
    /// An `else` body.
    Else {
        /// The branches closed before it.
        branches: Seq<(CondModel, Seq<TplModel>)>,
        /// Its body so far.
        body: Seq<TplModel>,
    },
}

/// The body that a frame is collecting.
pub open spec fn frame_body(f: FrameModel) -> Seq<TplModel> {
    match f {
        FrameModel::Root(b) => b,
        FrameModel::If { body, .. } => body,
        FrameModel::Else { body, .. } => body,
    }
}

/// The frame with another body.
pub open spec fn with_body(f: FrameModel, b: Seq<TplModel>) -> FrameModel {
    match f {
        FrameModel::Root(_) => FrameModel::Root(b),
        FrameModel::If { condition, branches, .. } => FrameModel::If { condition, branches, body: b },
        FrameModel::Else { branches, .. } => FrameModel::Else { branches, body: b },
    }
}

/// A body after literal text is added: nothing for empty text; appended to a literal that
/// ends the body; else as a new literal.
pub open spec fn body_with_text(b: Seq<TplModel>, t: Seq<char>) -> Seq<TplModel> {
    if t.len() == 0 {
        b
    } else if b.len() > 0 && b.last() is Literal {
        b.drop_last().push(TplModel::Literal(b.last()->Literal_0 + t))
    } else {
        b.push(TplModel::Literal(t))
    }
}

/// The open blocks after literal text is added to the innermost one.
pub open spec fn stack_with_text(st: Seq<FrameModel>, t: Seq<char>) -> Seq<FrameModel> {
    if st.len() == 0 {
        st
    } else {
        st.update(st.len() - 1, with_body(st.last(), body_with_text(frame_body(st.last()), t)))
    }
}

/// The open blocks after a token is added to the innermost one.
pub open spec fn stack_with_token(st: Seq<FrameModel>, tok: TplModel) -> Seq<FrameModel> {
    if st.len() == 0 {
        st
    } else {
        st.update(st.len() - 1, with_body(st.last(), frame_body(st.last()).push(tok)))
    }
}

/// The characters of the (byte index, character) pairs from `a` to `b`.
pub open spec fn text_of(cs: Seq<(usize, char)>, a: int, b: int) -> Seq<char> {
    cs.subrange(a, b).map_values(|p: (usize, char)| p.1)
}

/// The (byte index, character) pairs of a text, as `str::char_indices` gives them.
pub open spec fn indexed_model(s: Seq<char>) -> Seq<(usize, char)> {
    Seq::new(s.len(), |k: int| (utf8_len(s.take(k)) as usize, s[k]))
}

/// The condition of an `if` or `elif` tag (see `Condition::parse`).
pub open spec fn condition_of(s: Seq<char>, max: nat) -> Result<CondModel, Seq<char>> {
    match expr_tokens(s, 0) {
        Err(e) => Err(e),
        Ok(ts) => parsed_condition(ts, max),
    }
}

/// The error for conditional blocks nested deeper than the limit.
pub open spec fn template_depth_error(max: nat) -> Seq<char> {
    "Maximum template nesting depth of "@ + decimal(max) + " exceeded"@
}

/// The open blocks after a control tag with the (trimmed) content `c`: `if <condition>`
/// opens a branch (unless the blocks are nested `max` deep already); `elif <condition>`
/// closes the open branch and opens another; `else` closes the open branch and opens the
/// fallback; `endif` closes the block and adds it to the enclosing body. Anything else, or
/// a tag where no block allows it, is an error.
#[verifier::opaque]
pub open spec fn control_step(st: Seq<FrameModel>, c: Seq<char>, max: nat) -> Result<Seq<FrameModel>, Seq<char>> {
    if c.len() >= 3 && c.take(3) == "if "@ {
        if st.len() > max {
            Err(template_depth_error(max))
        } else {
            match condition_of(c.skip(3), max) {
                Err(e) => Err(e),
                Ok(cond) => Ok(st.push(FrameModel::If { condition: cond, branches: seq![], body: seq![] })),
            }
        }
    } else if c.len() >= 5 && c.take(5) == "elif "@ {
        match condition_of(c.skip(5), max) {
            Err(e) => Err(e),
            Ok(cond) => match st.last() {
                FrameModel::If { condition, branches, body } =>
                    Ok(st.update(st.len() - 1, FrameModel::If { condition: cond, branches: branches.push((condition, body)), body: seq![] })),
                _ => Err("Unexpected {% elif %} in this context"@),
            },
        }
    } else if c == "else"@ {
        match st.last() {
            FrameModel::If { condition, branches, body } =>
                Ok(st.drop_last().push(FrameModel::Else { branches: branches.push((condition, body)), body: seq![] })),
            _ => Err("Unexpected {% else %} in this context"@),
        }
    } else if c == "endif"@ {
        match st.last() {
            FrameModel::If { condition, branches, body } =>
                Ok(stack_with_token(st.drop_last(), TplModel::Conditional { branches: branches.push((condition, body)), fallback: None })),
            FrameModel::Else { branches, body } =>
                Ok(stack_with_token(st.drop_last(), TplModel::Conditional { branches, fallback: Some(body) })),
            FrameModel::Root(_) => Err("Unexpected {% endif %}"@),
        }
    } else {
        Err("Unknown control tag: {% "@ + c + " %}"@)
    }
}

/// The token of a tag's content: a variable when it starts with '$', else an entity, for an
/// entity tag; a verb for a verb tag.
pub open spec fn tag_token(content: Seq<char>, is_entity: bool) -> Result<TokenModel, Seq<char>> {
    if is_entity {
        let t = trim_start(content);
        if t.len() > 0 && t[0] == '$' { variable_tag(content) } else { entity_tag(content) }
    } else {
        verb_tag(content)
    }
}

/// Where a scan goes from one position: the next position, the start of the pending literal
/// text, and the open blocks; or an error.
pub enum Step {
    /// Go on.
    Next(int, int, Seq<FrameModel>),
    /// Stop with an error.
    Fail(Seq<char>),
}

/// The characters that a backslash escapes.
pub open spec fn escapable(c: char) -> bool {
    c == '{' || c == '[' || c == '}' || c == ']' || c == '\\'
}

/// The position after the spaces and tabs from `j`.
pub open spec fn after_blanks(cs: Seq<(usize, char)>, j: int) -> int
    decreases cs.len() - j,
{
    if 0 <= j < cs.len() && (cs[j].1 == ' ' || cs[j].1 == '\t') { after_blanks(cs, j + 1) } else { j }
}

/// One step of the scan at position `i` (before the end), with literal text pending from `l`.
/// A backslash before `{`, `[`, `}`, `]` or `\` drops the backslash and keeps the next
/// character as text; before a line break it drops the backslash, the break and the spaces
/// and tabs after it; otherwise it stays. `{#...#}` is a comment, dropped. `{%...%}` is a
/// control tag (see `control_step`). Any other `{` or `[` opens a tag that runs to its
/// closing delimiter (see `scan_to_close`) and becomes a token (see `tag_token`).
pub open spec fn scan_step(cs: Seq<(usize, char)>, max: nat, i: int, l: int, st: Seq<FrameModel>) -> Step {
    let c = cs[i].1;
    let b = cs[i].0;
    if c == '\\' {
        if i + 1 < cs.len() {
            let n = cs[i + 1].1;
            if escapable(n) {
                Step::Next(i + 2, i + 1, stack_with_text(st, text_of(cs, l, i)))
            } else if n == '\n' || n == '\r' {
                let j0 = if n == '\r' && i + 2 < cs.len() && cs[i + 2].1 == '\n' { i + 3 } else { i + 2 };
                let j = after_blanks(cs, j0);
                Step::Next(j, j, stack_with_text(st, text_of(cs, l, i)))
            } else {
                Step::Next(i + 1, l, st)
            }
        } else {
            Step::Next(i + 1, l, st)
        }
    } else if c == '{' && i + 1 < cs.len() && cs[i + 1].1 == '#' {
        match find_from(text_of(cs, 0, cs.len() as int), "#}"@, i + 1) {
            Some(e) => Step::Next(e + 2, e + 2, stack_with_text(st, text_of(cs, l, i))),
            None => Step::Fail(unclosed_message("comment"@, b)),
        }
    } else if c == '{' && i + 1 < cs.len() && cs[i + 1].1 == '%' {
        match find_from(text_of(cs, 0, cs.len() as int), "%}"@, i + 1) {
            Some(e) => {
                let content = if i + 2 <= e { trim(text_of(cs, i + 2, e)) } else { seq![] };
                match control_step(stack_with_text(st, text_of(cs, l, i)), content, max) {
                    Ok(st2) => Step::Next(e + 2, e + 2, st2),
                    Err(m) => Step::Fail(m),
                }
            },
            None => Step::Fail(unclosed_message("control tag"@, b)),
        }
    } else if c == '{' || c == '[' {
        let is_entity = c == '{';
        let close = if is_entity { '}' } else { ']' };
        let name = if is_entity { "entity tag"@ } else { "verb tag"@ };
        match scan_to_close(cs, i + 1, close, false, None, '\0') {
            None => Step::Fail(unclosed_message(name, b)),
            Some((_, next)) => {
                if next <= i + 1 || next > cs.len() {
                    Step::Fail(seq![])
                } else {
                    match tag_token(text_of(cs, i + 1, next - 1), is_entity) {
                        Err(m) => Step::Fail(m),
                        Ok(tok) => Step::Next(next, next, stack_with_token(stack_with_text(st, text_of(cs, l, i)), TplModel::Tag(tok))),
                    }
                }
            },
        }
    } else {
        Step::Next(i + 1, l, st)
    }
}

/// The end of the scan: the pending text is added; an open block is an error; otherwise
/// the root's body is the template.
pub open spec fn scan_end(cs: Seq<(usize, char)>, l: int, st: Seq<FrameModel>) -> Result<Seq<TplModel>, Seq<char>> {
    let st2 = stack_with_text(st, text_of(cs, l, cs.len() as int));
    if st2.len() != 1 {
        Err("Unclosed {% if %} tag at the end of the template"@)
    } else {
        match st2[0] {
            FrameModel::Root(b) => Ok(b),
            _ => Err("Internal parser error: Invalid root frame structure"@),
        }
    }
}

/// The scan of a template from position `i`, with literal text pending from `l` and the
/// open blocks `st`.
#[verifier::opaque]
pub open spec fn scan_from(cs: Seq<(usize, char)>, max: nat, i: int, l: int, st: Seq<FrameModel>) -> Result<Seq<TplModel>, Seq<char>>
    decreases cs.len() - i,
{
    if i < 0 || i >= cs.len() {
        scan_end(cs, l, st)
    } else {
        match scan_step(cs, max, i, l, st) {
            Step::Fail(e) => Err(e),
            Step::Next(i2, l2, st2) => if i2 <= i || i2 > cs.len() { Err(seq![]) } else { scan_from(cs, max, i2, l2, st2) },
        }
    }
}

/// The tokens of a template text, with blocks nested at most `max` deep.
pub open spec fn compiled(raw: Seq<char>, max: nat) -> Result<Seq<TplModel>, Seq<char>> {
    scan_from(indexed_model(raw), max, 0, 0, seq![FrameModel::Root(seq![])])
}

// ---------------------------------------------------------------------------
// Compiling: the open blocks
// ---------------------------------------------------------------------------

/// The models of a sequence of tokens, one by one.
pub proof fn lemma_tpl_seq(s: Seq<Token>, n: nat)
    requires
        n <= s.len(),
    ensures
        tpl_seq_model(s, n).len() == n,
        forall|k: int| 0 <= k < n ==> #[trigger] tpl_seq_model(s, n)[k] == tpl_model(s[k]),
    decreases n,
{
    if n > 0 {
        lemma_tpl_seq(s, (n - 1) as nat);
    }
}

/// The models of a sequence of branches, one by one.
pub proof fn lemma_branches(s: Seq<ConditionalBranch>, n: nat)
    requires
        n <= s.len(),
    ensures
        branches_model(s, n).len() == n,
        forall|k: int| 0 <= k < n ==> #[trigger] branches_model(s, n)[k] == (cond_model(s[k].condition), tokens_model(s[k].body@)),
    decreases n,
{
    if n > 0 {
        lemma_branches(s, (n - 1) as nat);
    }
}

/// The model of a token list after a push.
proof fn lemma_tokens_push(v: Seq<Token>, t: Token)
    ensures
        tokens_model(v.push(t)) == tokens_model(v).push(tpl_model(t)),
{
    lemma_tpl_seq(v, v.len());
    lemma_tpl_seq(v.push(t), v.len() + 1);
    assert(tokens_model(v.push(t)) =~= tokens_model(v).push(tpl_model(t)));
}

/// The model of a token list without its last token.
proof fn lemma_tokens_drop_last(v: Seq<Token>)
    requires
        v.len() > 0,
    ensures
        tokens_model(v.drop_last()) == tokens_model(v).drop_last(),
        tokens_model(v).last() == tpl_model(v.last()),
{
    lemma_tpl_seq(v, v.len());
    lemma_tpl_seq(v.drop_last(), (v.len() - 1) as nat);
    assert(tokens_model(v.drop_last()) =~= tokens_model(v).drop_last());
}

/// The model of a branch list after a push.
proof fn lemma_branches_push(v: Seq<ConditionalBranch>, b: ConditionalBranch)
    ensures
        branches_model(v.push(b), v.len() + 1) == branches_model(v, v.len()).push((cond_model(b.condition), tokens_model(b.body@))),
{
    lemma_branches(v, v.len());
    lemma_branches(v.push(b), v.len() + 1);
    assert(branches_model(v.push(b), v.len() + 1) =~= branches_model(v, v.len()).push((cond_model(b.condition), tokens_model(b.body@))));
}

/// An open block while a template is scanned (see `FrameModel`).
pub enum Frame {
    /// The template itself.
    Root(Vec<Token>),
    /// A branch with a condition.
    If {
        /// Its condition.
        condition: Condition,
        /// The branches closed before it.
        branches: Vec<ConditionalBranch>,
        /// Its body so far.
        current_body: Vec<Token>,
    },
    /// An `else` body.
    Else {
        /// The branches closed before it.
        branches: Vec<ConditionalBranch>,
        /// Its body so far.
        current_body: Vec<Token>,
    },
}

/// The model of an open block.
pub open spec fn frame_model(f: Frame) -> FrameModel {
    match f {
        Frame::Root(b) => FrameModel::Root(tokens_model(b@)),
        Frame::If { condition, branches, current_body } => FrameModel::If {
            condition: cond_model(condition),
            branches: branches_model(branches@, branches@.len()),
            body: tokens_model(current_body@),
        },
        Frame::Else { branches, current_body } => FrameModel::Else {
            branches: branches_model(branches@, branches@.len()),
            body: tokens_model(current_body@),
        },
    }
}

/// The models of the open blocks.
pub open spec fn frames_model(v: Seq<Frame>) -> Seq<FrameModel> {
    v.map_values(|f: Frame| frame_model(f))
}

/// Adds literal text to a body (see `body_with_text`).
fn push_literal(body: &mut Vec<Token>, t: Vec<char>)
    ensures
        tokens_model(final(body)@) == body_with_text(tokens_model(old(body)@), t@),
{
    if t.len() == 0 {
        return;
    }
    let ghost v0 = body@;
    let merge = body.len() > 0 && match &body[body.len() - 1] {
        Token::Literal(_) => true,
        _ => false,
    };
    if merge {
        proof {
            lemma_tokens_drop_last(v0);
        }
        let last = body.pop().unwrap();
        match last {
            Token::Literal(s) => {
                let mut all = chars_of(s.as_str());
                append_chars(&mut all, &t);
                let tok = Token::Literal(string_of(&all));
                proof {
                    lemma_tokens_push(body@, tok);
                }
                body.push(tok);
            },
            _ => {},
        }
    } else {
        let tok = Token::Literal(string_of(&t));
        proof {
            if v0.len() > 0 {
                lemma_tokens_drop_last(v0);
            }
            lemma_tokens_push(v0, tok);
        }
        body.push(tok);
    }
}

/// The body of a frame, taken out of it, and the frame left with an empty body.
fn take_body(f: Frame) -> (r: (Frame, Vec<Token>))
    ensures
        frame_model(r.0) == with_body(frame_model(f), seq![]),
        tokens_model(r.1@) == frame_body(frame_model(f)),
{
    proof {
        lemma_tpl_seq(Seq::<Token>::empty(), 0);
    }
    match f {
        Frame::Root(b) => (Frame::Root(Vec::new()), b),
        Frame::If { condition, branches, current_body } => (Frame::If { condition, branches, current_body: Vec::new() }, current_body),
        Frame::Else { branches, current_body } => (Frame::Else { branches, current_body: Vec::new() }, current_body),
    }
}

/// The frame with its body put back.
fn put_body(f: Frame, b: Vec<Token>) -> (r: Frame)
    ensures
        frame_model(r) == with_body(frame_model(f), tokens_model(b@)),
{
    match f {
        Frame::Root(_) => Frame::Root(b),
        Frame::If { condition, branches, .. } => Frame::If { condition, branches, current_body: b },
        Frame::Else { branches, .. } => Frame::Else { branches, current_body: b },
    }
}

/// Adds literal text to the innermost block (see `stack_with_text`).
fn push_text(stack: &mut Vec<Frame>, t: Vec<char>)
    ensures
        frames_model(final(stack)@) == stack_with_text(frames_model(old(stack)@), t@),
{
    let ghost m0 = frames_model(stack@);
    if stack.len() == 0 {
        return;
    }
    let top = stack.pop().unwrap();
    let (f, mut b) = take_body(top);
    push_literal(&mut b, t);
    let f2 = put_body(f, b);
    stack.push(f2);
    assert(frames_model(stack@) =~= m0.update(m0.len() - 1, with_body(m0.last(), body_with_text(frame_body(m0.last()), t@))));
}

/// Adds a token to the innermost block (see `stack_with_token`).
fn push_token(stack: &mut Vec<Frame>, tok: Token)
    ensures
        frames_model(final(stack)@) == stack_with_token(frames_model(old(stack)@), tpl_model(tok)),
{
    let ghost m0 = frames_model(stack@);
    if stack.len() == 0 {
        return;
    }
    let top = stack.pop().unwrap();
    let (f, mut b) = take_body(top);
    proof {
        lemma_tokens_push(b@, tok);
    }
    b.push(tok);
    let f2 = put_body(f, b);
    stack.push(f2);
    assert(frames_model(stack@) =~= m0.update(m0.len() - 1, with_body(m0.last(), frame_body(m0.last()).push(tpl_model(tok)))));
}

/// The text's UTF-8 length is the sum of its parts'.
pub proof fn lemma_utf8_len_concat(x: Seq<char>, y: Seq<char>)
    ensures
        utf8_len(x + y) == utf8_len(x) + utf8_len(y),
    decreases y.len(),
{
    if y.len() > 0 {
        lemma_utf8_len_concat(x, y.drop_last());
        assert((x + y).drop_last() =~= x + y.drop_last());
        assert((x + y).last() == y.last());
    } else {
        assert(x + y =~= x);
    }
}

/// A part of a text is no longer in UTF-8 than the text.
pub proof fn lemma_utf8_len_subrange(s: Seq<char>, a: int, b: int)
    requires
        0 <= a <= b <= s.len(),
    ensures
        utf8_len(s.subrange(a, b)) <= utf8_len(s),
{
    lemma_utf8_len_concat(s.take(a), s.subrange(a, b));
    lemma_utf8_len_concat(s.take(a) + s.subrange(a, b), s.skip(b));
    assert(s.take(a) + s.subrange(a, b) + s.skip(b) =~= s);
}

/// The open blocks are well formed: the root at the bottom, and only branches above it.
pub open spec fn well_stacked(st: Seq<FrameModel>) -> bool {
    &&& st.len() >= 1
    &&& st[0] is Root
    &&& forall|k: int| 1 <= k < st.len() ==> !(#[trigger] st[k] is Root)
}

/// Whether a text starts with the literal.
fn starts_with_lit(c: &Vec<char>, lit: &str) -> (r: bool)
    ensures
        r == (c@.len() >= lit@.len() && c@.take(lit@.len() as int) == lit@),
{
    let l = chars_of(lit);
    if c.len() < l.len() {
        return false;
    }
    let head = subrange_of(c, 0, l.len());
    assert(head@ =~= c@.take(lit@.len() as int));
    chars_eq(&head, &l)
}

/// Parses the condition after the first `k` characters of a control tag.
fn condition_after(c: &Vec<char>, k: usize, max: usize) -> (r: Result<Condition, String>)
    requires
        k <= c.len(),
        utf8_len(c@) <= usize::MAX,
    ensures
        match condition_of(c@.skip(k as int), max as nat) {
            Ok(m) => r matches Ok(x) && cond_model(x) == m,
            Err(e) => r matches Err(x) && x@ == e,
        },
{
    let rest = string_of(&subrange_of(c, k, c.len()));
    assert(rest@ =~= c@.skip(k as int));
    proof {
        lemma_utf8_len_subrange(c@, k as int, c.len() as int);
    }
    Condition::parse(rest.as_str(), max)
}

/// Applies a control tag to the open blocks (see `control_step`).
fn apply_control(stack: &mut Vec<Frame>, c: &Vec<char>, max: usize) -> (r: Result<(), String>)
    requires
        well_stacked(frames_model(old(stack)@)),
        utf8_len(c@) <= usize::MAX,
    ensures
        match control_step(frames_model(old(stack)@), c@, max as nat) {
            Ok(st) => r is Ok && frames_model(final(stack)@) == st && well_stacked(st),
            Err(m) => r matches Err(x) && x@ == m,
        },
{
    let ghost m0 = frames_model(stack@);
    proof {
        reveal(control_step);
        lemma_tpl_seq(Seq::<Token>::empty(), 0);
        lemma_branches(Seq::<ConditionalBranch>::empty(), 0);
        reveal_strlit("if ");
        reveal_strlit("elif ");
    }
    if starts_with_lit(c, "if ") {
        if stack.len() > max {
            let mut m = chars_of("Maximum template nesting depth of ");
            append_str(&mut m, usize_to_string(max).as_str());
            append_str(&mut m, " exceeded");
            return Err(string_of(&m));
        }
        let cond = match condition_after(c, 3, max) {
            Ok(x) => x,
            Err(e) => {
                return Err(e);
            },
        };
        stack.push(Frame::If { condition: cond, branches: Vec::new(), current_body: Vec::new() });
        assert(frames_model(stack@) =~= m0.push(FrameModel::If { condition: cond_model(cond), branches: seq![], body: seq![] }));
        return Ok(());
    }
    if starts_with_lit(c, "elif ") {
        assert(!(c@.len() >= 3 && c@.take(3) == "if "@));
        let cond = match condition_after(c, 5, max) {
            Ok(x) => x,
            Err(e) => {
                return Err(e);
            },
        };
        let top = stack.pop().unwrap();
        assert(frame_model(top) == m0.last());
        match top {
            Frame::If { condition, mut branches, current_body } => {
                proof {
                    lemma_branches_push(branches@, ConditionalBranch { condition, body: current_body });
                }
                branches.push(ConditionalBranch { condition, body: current_body });
                let f = Frame::If { condition: cond, branches, current_body: Vec::new() };
                stack.push(f);
                assert(frames_model(stack@) =~= m0.update(m0.len() - 1, frame_model(f)));
                return Ok(());
            },
            _ => {
                return Err(String::from_str("Unexpected {% elif %} in this context"));
            },
        }
    }
    let is_else = chars_eq(c, &chars_of("else"));
    let is_endif = chars_eq(c, &chars_of("endif"));
    if !is_else && !is_endif {
        let mut m = chars_of("Unknown control tag: {% ");
        append_chars(&mut m, c);
        append_str(&mut m, " %}");
        return Err(string_of(&m));
    }
    let top = stack.pop().unwrap();
    assert(frame_model(top) == m0.last());
    assert(frames_model(stack@) =~= m0.drop_last());
    if is_else {
        match top {
            Frame::If { condition, mut branches, current_body } => {
                proof {
                    lemma_branches_push(branches@, ConditionalBranch { condition, body: current_body });
                }
                branches.push(ConditionalBranch { condition, body: current_body });
                let f = Frame::Else { branches, current_body: Vec::new() };
                stack.push(f);
                assert(frames_model(stack@) =~= m0.drop_last().push(frame_model(f)));
                Ok(())
            },
            _ => Err(String::from_str("Unexpected {% else %} in this context")),
        }
    } else {
        let tok = match top {
            Frame::If { condition, mut branches, current_body } => {
                proof {
                    lemma_branches_push(branches@, ConditionalBranch { condition, body: current_body });
                }
                branches.push(ConditionalBranch { condition, body: current_body });
                Token::Conditional { branches, fallback: None }
            },
            Frame::Else { branches, current_body } => Token::Conditional { branches, fallback: Some(current_body) },
            Frame::Root(_) => {
                return Err(String::from_str("Unexpected {% endif %}"));
            },
        };
        push_token(stack, tok);
        Ok(())
    }
}

// ---------------------------------------------------------------------------
// Compiling: the steps
// ---------------------------------------------------------------------------

/// The (byte index, character) pairs of a text (see `indexed_model`).
pub fn indexed_chars(s: &Vec<char>) -> (r: Vec<(usize, char)>)
    requires
        utf8_len(s@) <= usize::MAX,
    ensures
        r@ == indexed_model(s@),
{
    let mut r: Vec<(usize, char)> = Vec::new();
    let mut n: usize = 0;
    let mut k: usize = 0;
    assert(s@.take(0) =~= Seq::<char>::empty());
    while k < s.len()
        invariant
            k <= s.len(),
            utf8_len(s@) <= usize::MAX,
            n == utf8_len(s@.take(k as int)),
            r@ =~= indexed_model(s@).take(k as int),
        decreases s.len() - k,
    {
        proof {
            lemma_utf8_len_subrange(s@, 0, k + 1);
            assert(s@.take(k + 1) =~= s@.subrange(0, k + 1));
            assert(s@.take(k + 1).drop_last() =~= s@.take(k as int));
        }
        r.push((n, s[k]));
        let c = s[k] as u32;
        let w: usize = if c < 0x80 { 1 } else if c < 0x800 { 2 } else if c < 0x10000 { 3 } else { 4 };
        n = n + w;
        k = k + 1;
    }
    r
}

/// The text of the pairs is the text.
proof fn lemma_text_of(cs: Seq<(usize, char)>, raw: Seq<char>, a: int, b: int)
    requires
        cs == indexed_model(raw),
        0 <= a <= b <= raw.len(),
    ensures
        text_of(cs, a, b) == raw.subrange(a, b),
{
    assert(text_of(cs, a, b) =~= raw.subrange(a, b));
}

/// A tag's delimiter, when found, lies after the start and within the text.
proof fn lemma_scan_to_close_bounds(cs: Seq<(usize, char)>, i: int, close: char, escaped: bool, quote: Option<char>, prev: char)
    requires
        0 <= i,
    ensures
        scan_to_close(cs, i, close, escaped, quote, prev) matches Some((_, next)) ==> i < next <= cs.len(),
    decreases cs.len() - i,
{
    if i < cs.len() {
        let ch = cs[i].1;
        if escaped {
            lemma_scan_to_close_bounds(cs, i + 1, close, false, quote, ch);
        } else if ch == '\\' {
            lemma_scan_to_close_bounds(cs, i + 1, close, true, quote, ch);
        } else {
            match quote {
                Some(q) => lemma_scan_to_close_bounds(cs, i + 1, close, false, if ch == q { None } else { Some(q) }, ch),
                None => if ch != close {
                    lemma_scan_to_close_bounds(cs, i + 1, close, false, crate::parser::opened_quote(ch, prev), ch);
                },
            }
        }
    }
}

/// The token of a tag of the template (see `tag_token`).
fn token_of_tag(t: TagToken) -> (r: Token)
    ensures
        tpl_model(r) == TplModel::Tag(token_model(t)),
{
    match t {
        TagToken::EntityRef { key, article, p_type, owner_key, owner_flags, adjectives, flags } =>
            Token::EntityRef { key, article, p_type, owner_key, owner_flags, adjectives, flags },
        TagToken::VerbRef { subject_key, original_verb, lower_verb, dynamic_key, dynamic_fallback, forced_present, forced_past, flags } =>
            Token::VerbRef { subject_key, original_verb, lower_verb, dynamic_key, dynamic_fallback, forced_present, forced_past, flags },
        TagToken::VariableRef { key, fallback, flags } => Token::VariableRef { key, fallback, flags },
        TagToken::SentenceBreak => Token::SentenceBreak,
        TagToken::NoSentenceBreak => Token::NoSentenceBreak,
    }
}

/// Reads the content of a tag (see `tag_token`).
fn read_tag(content: &Vec<char>, is_entity: bool) -> (r: Result<Token, String>)
    ensures
        match tag_token(content@, is_entity) {
            Ok(m) => r matches Ok(t) && tpl_model(t) == TplModel::Tag(m),
            Err(e) => r matches Err(x) && x@ == e,
        },
{
    let text = string_of(content);
    let parsed = if is_entity {
        let t = crate::text::chars_trim_start(content);
        if t.len() > 0 && t[0] == '$' {
            crate::tags::parse_variable(text.as_str())
        } else {
            crate::tags::parse_entity(text.as_str())
        }
    } else {
        crate::tags::parse_verb(text.as_str())
    };
    match parsed {
        Ok(t) => Ok(token_of_tag(t)),
        Err(e) => Err(e),
    }
}

/// The position after the spaces and tabs from `j` (see `after_blanks`).
fn skip_blanks(rc: &Vec<char>, j: usize) -> (r: usize)
    requires
        j <= rc.len(),
    ensures
        j <= r <= rc.len(),
        forall|cs: Seq<(usize, char)>| cs == indexed_model(rc@) ==> r == after_blanks(cs, j as int),
{
    let mut k = j;
    while k < rc.len() && (rc[k] == ' ' || rc[k] == '\t')
        invariant
            j <= k <= rc.len(),
            forall|cs: Seq<(usize, char)>| cs == indexed_model(rc@) ==> after_blanks(cs, j as int) == after_blanks(cs, k as int),
        decreases rc.len() - k,
    {
        k = k + 1;
    }
    k
}

/// The text of a control tag between `{%` and `%}`, trimmed.
fn control_content(rc: &Vec<char>, a: usize, b: usize) -> (r: Vec<char>)
    requires
        a <= b <= rc.len(),
        utf8_len(rc@) <= usize::MAX,
    ensures
        r@ == trim(rc@.subrange(a as int, b as int)),
        utf8_len(r@) <= usize::MAX,
{
    let sub = subrange_of(rc, a, b);
    let lo = crate::text::leading_white(&sub, 0);
    assert(sub@.subrange(0, sub.len() as int) =~= sub@);
    let hi = crate::text::trailing_white_end(&sub, lo, sub.len());
    let r = subrange_of(&sub, lo, hi);
    proof {
        lemma_utf8_len_subrange(rc@, a as int, b as int);
        lemma_utf8_len_subrange(sub@, lo as int, hi as int);
    }
    r
}

/// The error for an unclosed comment or control tag, naming the byte index of its `{`.
fn unclosed_at(what: &str, b: usize) -> (r: String)
    ensures
        r@ == unclosed_message(what@, b),
{
    let mut m = chars_of("Unclosed ");
    append_str(&mut m, what);
    append_str(&mut m, " starting at index ");
    append_str(&mut m, usize_to_string(b).as_str());
    string_of(&m)
}

/// Adding text or a token to the innermost block keeps the blocks well formed.
proof fn lemma_stack_kinds(st: Seq<FrameModel>, t: Seq<char>, tok: TplModel)
    requires
        well_stacked(st),
    ensures
        well_stacked(stack_with_text(st, t)),
        well_stacked(stack_with_token(st, tok)),
{
    let a = stack_with_text(st, t);
    let b = stack_with_token(st, tok);
    assert forall|k: int| 0 <= k < st.len() implies (#[trigger] a[k] is Root) == (st[k] is Root) && (b[k] is Root) == (st[k] is Root) by {
        if k == st.len() - 1 {
        }
    }
}

/// The step of a backslash (see `scan_step`).
fn escape_step(rc: &Vec<char>, cs: &Vec<(usize, char)>, max: usize, i: usize, l: usize, stack: &mut Vec<Frame>) -> (r: Result<(usize, usize), String>)
    requires
        l <= i < cs.len(),
        cs@ == indexed_model(rc@),
        cs@[i as int].1 == '\\',
        well_stacked(frames_model(old(stack)@)),
    ensures
        match scan_step(cs@, max as nat, i as int, l as int, frames_model(old(stack)@)) {
            Step::Next(i2, l2, st2) => r matches Ok((a, b)) && a == i2 && b == l2 && i < a <= cs.len() && b <= a
                && frames_model(final(stack)@) == st2 && well_stacked(st2),
            Step::Fail(m) => r matches Err(x) && x@ == m,
        },
{
    proof {
        lemma_text_of(cs@, rc@, l as int, i as int);
        lemma_stack_kinds(frames_model(stack@), rc@.subrange(l as int, i as int), TplModel::Literal(seq![]));
    }
    if i + 1 < cs.len() {
        let n = cs[i + 1].1;
        if n == '{' || n == '[' || n == '}' || n == ']' || n == '\\' {
            push_text(stack, subrange_of(rc, l, i));
            Ok((i + 2, i + 1))
        } else if n == '\n' || n == '\r' {
            push_text(stack, subrange_of(rc, l, i));
            let j0 = if n == '\r' && i + 2 < cs.len() && cs[i + 2].1 == '\n' { i + 3 } else { i + 2 };
            let j = skip_blanks(rc, j0);
            Ok((j, j))
        } else {
            Ok((i + 1, l))
        }
    } else {
        Ok((i + 1, l))
    }
}

/// The step of a comment (see `scan_step`).
fn comment_step(rc: &Vec<char>, cs: &Vec<(usize, char)>, max: usize, i: usize, l: usize, stack: &mut Vec<Frame>) -> (r: Result<(usize, usize), String>)
    requires
        l <= i < cs.len(),
        i + 1 < cs.len(),
        cs@ == indexed_model(rc@),
        cs@[i as int].1 == '{',
        cs@[i + 1].1 == '#',
        well_stacked(frames_model(old(stack)@)),
    ensures
        match scan_step(cs@, max as nat, i as int, l as int, frames_model(old(stack)@)) {
            Step::Next(i2, l2, st2) => r matches Ok((a, b)) && a == i2 && b == l2 && i < a <= cs.len() && b <= a
                && frames_model(final(stack)@) == st2 && well_stacked(st2),
            Step::Fail(m) => r matches Err(x) && x@ == m,
        },
{
    proof {
        lemma_text_of(cs@, rc@, l as int, i as int);
        lemma_text_of(cs@, rc@, 0, rc.len() as int);
        assert(rc@.subrange(0, rc.len() as int) =~= rc@);
        reveal_strlit("#}");
        lemma_stack_kinds(frames_model(stack@), rc@.subrange(l as int, i as int), TplModel::Literal(seq![]));
    }
    let b = cs[i].0;
    let pat = chars_of("#}");
    match crate::text::chars_find_from(rc, &pat, i + 1) {
        Some(e) => {
            proof {
                crate::text::lemma_find_bounds(rc@, pat@, i + 1);
            }
            push_text(stack, subrange_of(rc, l, i));
            Ok((e + 2, e + 2))
        },
        None => Err(unclosed_at("comment", b)),
    }
}

/// The step of a control tag (see `scan_step`).
fn control_tag_step(rc: &Vec<char>, cs: &Vec<(usize, char)>, max: usize, i: usize, l: usize, stack: &mut Vec<Frame>) -> (r: Result<(usize, usize), String>)
    requires
        l <= i < cs.len(),
        i + 1 < cs.len(),
        cs@ == indexed_model(rc@),
        utf8_len(rc@) <= usize::MAX,
        cs@[i as int].1 == '{',
        cs@[i + 1].1 == '%',
        well_stacked(frames_model(old(stack)@)),
    ensures
        match scan_step(cs@, max as nat, i as int, l as int, frames_model(old(stack)@)) {
            Step::Next(i2, l2, st2) => r matches Ok((a, b)) && a == i2 && b == l2 && i < a <= cs.len() && b <= a
                && frames_model(final(stack)@) == st2 && well_stacked(st2),
            Step::Fail(m) => r matches Err(x) && x@ == m,
        },
{
    proof {
        lemma_text_of(cs@, rc@, l as int, i as int);
        lemma_text_of(cs@, rc@, 0, rc.len() as int);
        assert(rc@.subrange(0, rc.len() as int) =~= rc@);
        reveal_strlit("%}");
        lemma_stack_kinds(frames_model(stack@), rc@.subrange(l as int, i as int), TplModel::Literal(seq![]));
    }
    let b = cs[i].0;
    let pat = chars_of("%}");
    match crate::text::chars_find_from(rc, &pat, i + 1) {
        Some(e) => {
            proof {
                crate::text::lemma_find_bounds(rc@, pat@, i + 1);
            }
            let content = if i + 2 <= e {
                proof {
                    lemma_text_of(cs@, rc@, i + 2, e as int);
                }
                control_content(rc, i + 2, e)
            } else {
                Vec::new()
            };
            push_text(stack, subrange_of(rc, l, i));
            match apply_control(stack, &content, max) {
                Ok(()) => Ok((e + 2, e + 2)),
                Err(m) => Err(m),
            }
        },
        None => Err(unclosed_at("control tag", b)),
    }
}

/// The step of an entity or verb tag (see `scan_step`).
fn tag_step(rc: &Vec<char>, cs: &Vec<(usize, char)>, max: usize, i: usize, l: usize, stack: &mut Vec<Frame>) -> (r: Result<(usize, usize), String>)
    requires
        l <= i < cs.len(),
        cs@ == indexed_model(rc@),
        cs@[i as int].1 == '{' || cs@[i as int].1 == '[',
        !(cs@[i as int].1 == '{' && i + 1 < cs.len() && (cs@[i + 1].1 == '#' || cs@[i + 1].1 == '%')),
        well_stacked(frames_model(old(stack)@)),
    ensures
        match scan_step(cs@, max as nat, i as int, l as int, frames_model(old(stack)@)) {
            Step::Next(i2, l2, st2) => r matches Ok((a, b)) && a == i2 && b == l2 && i < a <= cs.len() && b <= a
                && frames_model(final(stack)@) == st2 && well_stacked(st2),
            Step::Fail(m) => r matches Err(x) && x@ == m,
        },
{
    let (b, c) = cs[i];
    let is_entity = c == '{';
    let close = if is_entity { '}' } else { ']' };
    let name = if is_entity { "entity tag" } else { "verb tag" };
    let mut pos = i + 1;
    proof {
        lemma_scan_to_close_bounds(cs@, i + 1, close, false, None, '\0');
    }
    match crate::parser::consume_until_closed(cs, &mut pos, b, close, name) {
        Err(m) => {
            return Err(m);
        },
        Ok(_) => {},
    }
    let next = pos;
    proof {
        lemma_text_of(cs@, rc@, i + 1, next - 1);
        lemma_text_of(cs@, rc@, l as int, i as int);
    }
    let content = subrange_of(rc, i + 1, next - 1);
    let tok = match read_tag(&content, is_entity) {
        Ok(t) => t,
        Err(m) => {
            return Err(m);
        },
    };
    let ghost st0 = frames_model(stack@);
    proof {
        lemma_stack_kinds(st0, rc@.subrange(l as int, i as int), tpl_model(tok));
        lemma_stack_kinds(stack_with_text(st0, rc@.subrange(l as int, i as int)), seq![], tpl_model(tok));
    }
    push_text(stack, subrange_of(rc, l, i));
    push_token(stack, tok);
    Ok((next, next))
}

/// One step of the scan (see `scan_step`).
fn compile_step(rc: &Vec<char>, cs: &Vec<(usize, char)>, max: usize, i: usize, l: usize, stack: &mut Vec<Frame>) -> (r: Result<(usize, usize), String>)
    requires
        l <= i < cs.len(),
        cs@ == indexed_model(rc@),
        utf8_len(rc@) <= usize::MAX,
        well_stacked(frames_model(old(stack)@)),
    ensures
        match scan_step(cs@, max as nat, i as int, l as int, frames_model(old(stack)@)) {
            Step::Next(i2, l2, st2) => r matches Ok((a, b)) && a == i2 && b == l2 && i < a <= cs.len() && b <= a
                && frames_model(final(stack)@) == st2 && well_stacked(st2),
            Step::Fail(m) => r matches Err(x) && x@ == m,
        },
{
    let c = cs[i].1;
    if c == '\\' {
        return escape_step(rc, cs, max, i, l, stack);
    }
    if c == '{' && i + 1 < cs.len() && cs[i + 1].1 == '#' {
        return comment_step(rc, cs, max, i, l, stack);
    }
    if c == '{' && i + 1 < cs.len() && cs[i + 1].1 == '%' {
        return control_tag_step(rc, cs, max, i, l, stack);
    }
    if c == '{' || c == '[' {
        return tag_step(rc, cs, max, i, l, stack);
    }
    Ok((i + 1, l))
}

/// The scan from a position that is not the end goes on as its step says.
proof fn lemma_scan_unfold(cs: Seq<(usize, char)>, max: nat, i: int, l: int, st: Seq<FrameModel>)
    requires
        0 <= i < cs.len(),
    ensures
        scan_from(cs, max, i, l, st) == match scan_step(cs, max, i, l, st) {
            Step::Fail(e) => Err(e),
            Step::Next(i2, l2, st2) => if i2 <= i || i2 > cs.len() { Err(seq![]) } else { scan_from(cs, max, i2, l2, st2) },
        },
{
    reveal(scan_from);
}

/// The scan at the end is its end.
proof fn lemma_scan_end(cs: Seq<(usize, char)>, max: nat, l: int, st: Seq<FrameModel>)
    ensures
        scan_from(cs, max, cs.len() as int, l, st) == scan_end(cs, l, st),
{
    reveal(scan_from);
}

/// A compiled template.
#[derive(Debug)]
pub struct Template {
    /// The tokens of the template.
    pub tokens: Vec<Token>,
    /// The entity keys that the template names, once each, in the order of first mention.
    pub template_keys: Vec<String>,
    /// An estimate of the rendered length (the text's length in bytes, plus a fifth).
    pub estimated_length: usize,
}

/// Scans a template text into its tokens (see `compiled`).
fn scan_template(raw: &str, max_depth: usize) -> (r: Result<Vec<Token>, String>)
    requires
        utf8_len(raw@) <= usize::MAX,
    ensures
        match compiled(raw@, max_depth as nat) {
            Ok(ts) => r matches Ok(v) && tokens_model(v@) == ts,
            Err(e) => r matches Err(m) && m@ == e,
        },
{
    let rc = chars_of(raw);
    let cs = indexed_chars(&rc);
    let mut stack: Vec<Frame> = Vec::new();
    stack.push(Frame::Root(Vec::new()));
    proof {
        lemma_tpl_seq(Seq::<Token>::empty(), 0);
        assert(frames_model(stack@) =~= seq![FrameModel::Root(seq![])]);
    }
    let ghost init = frames_model(stack@);
    let mut i: usize = 0;
    let mut l: usize = 0;
    while i < cs.len()
        invariant
            l <= i <= cs.len(),
            rc@ == raw@,
            cs@ == indexed_model(rc@),
            utf8_len(rc@) <= usize::MAX,
            well_stacked(frames_model(stack@)),
            compiled(raw@, max_depth as nat) == scan_from(cs@, max_depth as nat, i as int, l as int, frames_model(stack@)),
        decreases cs.len() - i,
    {
        let ghost st = frames_model(stack@);
        proof {
            lemma_scan_unfold(cs@, max_depth as nat, i as int, l as int, st);
        }
        match compile_step(&rc, &cs, max_depth, i, l, &mut stack) {
            Err(m) => {
                return Err(m);
            },
            Ok((a, b)) => {
                i = a;
                l = b;
            },
        }
    }
    proof {
        lemma_scan_end(cs@, max_depth as nat, l as int, frames_model(stack@));
        lemma_text_of(cs@, rc@, l as int, rc.len() as int);
    }
    push_text(&mut stack, subrange_of(&rc, l, rc.len()));
    if stack.len() != 1 {
        return Err(String::from_str("Unclosed {% if %} tag at the end of the template"));
    }
    let top = stack.pop().unwrap();
    match top {
        Frame::Root(tokens) => Ok(tokens),
        _ => Err(String::from_str("Internal parser error: Invalid root frame structure")),
    }
}

impl Template {
    /// Compiles a template text with the default nesting limit (see `compile_with_depth`).
    pub fn compile(raw: &str) -> (r: Result<Template, String>)
        requires
            utf8_len(raw@) + utf8_len(raw@) / 5 <= usize::MAX,
        ensures
            match compiled(raw@, DEFAULT_MAX_DEPTH as nat) {
                Ok(ts) => r matches Ok(t) && tokens_model(t.tokens@) == ts
                    && keys_view(t.template_keys@) == with_new_keys(seq![], template_token_keys(ts))
                    && t.estimated_length == utf8_len(raw@) + utf8_len(raw@) / 5,
                Err(e) => r matches Err(m) && m@ == e,
            },
    {
        Template::compile_with_depth(raw, DEFAULT_MAX_DEPTH)
    }

    /// Compiles a template text into its tokens (see `compiled`), with conditional blocks
    /// and conditions nested at most `max_depth` deep; the template's keys are those its
    /// tokens name, once each, in the order of first mention, and its estimated length is
    /// the text's length in bytes plus a fifth.
    pub fn compile_with_depth(raw: &str, max_depth: usize) -> (r: Result<Template, String>)
        requires
            utf8_len(raw@) + utf8_len(raw@) / 5 <= usize::MAX,
        ensures
            match compiled(raw@, max_depth as nat) {
                Ok(ts) => r matches Ok(t) && tokens_model(t.tokens@) == ts
                    && keys_view(t.template_keys@) == with_new_keys(seq![], template_token_keys(ts))
                    && t.estimated_length == utf8_len(raw@) + utf8_len(raw@) / 5,
                Err(e) => r matches Err(m) && m@ == e,
            },
    {
        let tokens = match scan_template(raw, max_depth) {
            Ok(t) => t,
            Err(e) => {
                return Err(e);
            },
        };
        let template_keys = extract_keys(&tokens);
        let rc = chars_of(raw);
        let n = crate::parser::byte_offset(&rc, rc.len());
        assert(rc@.take(rc.len() as int) =~= rc@);
        Ok(Template { tokens, template_keys, estimated_length: n + n / 5 })
    }
}

} // verus!
