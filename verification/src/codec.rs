//! Lossless mapping between the wire-model entities and the JSON tree.
//!
//! Every entity has a spec-level encoding (`enc_*`) and decoding (`dec_*`),
//! and the executable codecs are proved to implement them exactly. Decoding
//! determines the message variant from its `role` tag; on an `assistant`
//! message and at a request's top level, keys the schema does not know are
//! captured and re-emitted rather than dropped.

use vstd::prelude::*;
use crate::json::{Json, JVal, json_view, lookup, pairs_view, elems_view};
use crate::wire::{
    ChatError, Content, ContentV, Message, MessageV, OpenAIChatCompletionRequest,
    OpenAIChatCompletionResponse, RequestV, ResponseV, Choice, ChoiceV, Usage, UsageV,
    opt_str_view, opt_int_view,
};

verus! {

broadcast use vstd::std_specs::vec::group_vec_axioms;

/// A field that is present only when its value is.
pub open spec fn opt_pair(k: Seq<char>, v: Option<JVal>) -> Seq<(Seq<char>, JVal)> {
    match v {
        Some(x) => seq![(k, x)],
        None => Seq::empty(),
    }
}

pub open spec fn enc_content(c: ContentV) -> JVal {
    match c {
        ContentV::Text(s) => JVal::Str(s),
        ContentV::Parts(a) => JVal::Arr(a),
    }
}

/// Structural discrimination: a string is text, an array is structured
/// content, anything else breaks the schema.
pub open spec fn dec_content(j: JVal) -> Option<ContentV> {
    match j {
        JVal::Str(s) => Some(ContentV::Text(s)),
        JVal::Arr(a) => Some(ContentV::Parts(a)),
        _ => None,
    }
}

pub open spec fn enc_opt_content(c: Option<ContentV>) -> Option<JVal> {
    match c {
        Some(x) => Some(enc_content(x)),
        None => None,
    }
}

pub open spec fn enc_opt_str(s: Option<Seq<char>>) -> Option<JVal> {
    match s {
        Some(x) => Some(JVal::Str(x)),
        None => None,
    }
}

pub open spec fn enc_opt_int(i: Option<int>) -> Option<JVal> {
    match i {
        Some(x) => Some(JVal::Int(x)),
        None => None,
    }
}

pub open spec fn enc_opt_bool(b: Option<bool>) -> Option<JVal> {
    match b {
        Some(x) => Some(JVal::Bool(x)),
        None => None,
    }
}

/// The keys an encoded message owns; everything else on an `assistant`
/// message is an unknown field and is kept.
pub open spec fn msg_known_key(k: Seq<char>) -> bool {
    k == "role"@ || k == "content"@ || k == "name"@
}

/// The fields whose keys the given predicate does not claim, in order.
pub open spec fn strip_known(
    o: Seq<(Seq<char>, JVal)>,
    known: spec_fn(Seq<char>) -> bool,
) -> Seq<(Seq<char>, JVal)>
    decreases o.len(),
{
    if o.len() == 0 {
        Seq::empty()
    } else {
        let r = strip_known(o.drop_last(), known);
        if known(o.last().0) {
            r
        } else {
            r.push(o.last())
        }
    }
}

pub open spec fn msg_extra(o: Seq<(Seq<char>, JVal)>) -> Seq<(Seq<char>, JVal)> {
    strip_known(o, |k: Seq<char>| msg_known_key(k))
}

/// The keys an encoded request owns; everything else is an unknown top-level
/// field and is kept.
pub open spec fn req_known_key(k: Seq<char>) -> bool {
    k == "messages"@ || k == "model"@ || k == "max_tokens"@ || k == "max_completion_tokens"@
        || k == "stream"@ || k == "user"@
}

pub open spec fn req_extra(o: Seq<(Seq<char>, JVal)>) -> Seq<(Seq<char>, JVal)> {
    strip_known(o, |k: Seq<char>| req_known_key(k))
}

pub open spec fn enc_message(m: MessageV) -> JVal {
    match m {
        MessageV::Developer { content, name } => JVal::Obj(
            seq![("role"@, JVal::Str("developer"@)), ("content"@, enc_content(content))]
                + opt_pair("name"@, enc_opt_str(name)),
        ),
        MessageV::System { content, name } => JVal::Obj(
            seq![("role"@, JVal::Str("system"@)), ("content"@, enc_content(content))] + opt_pair(
                "name"@,
                enc_opt_str(name),
            ),
        ),
        MessageV::User { content, name } => JVal::Obj(
            seq![("role"@, JVal::Str("user"@)), ("content"@, enc_content(content))] + opt_pair(
                "name"@,
                enc_opt_str(name),
            ),
        ),
        MessageV::Assistant { content, name, extra } => JVal::Obj(
            seq![("role"@, JVal::Str("assistant"@))] + opt_pair("content"@, enc_opt_content(content))
                + opt_pair("name"@, enc_opt_str(name)) + extra,
        ),
        MessageV::Tool { content, tool_call } => JVal::Obj(
            seq![
                ("role"@, JVal::Str("tool"@)),
                ("content"@, enc_content(content)),
                ("tool_call"@, JVal::Str(tool_call)),
            ],
        ),
        MessageV::Function { content, name } => JVal::Obj(
            seq![
                ("role"@, JVal::Str("function"@)),
                ("content"@, enc_content(content)),
                ("name"@, JVal::Str(name)),
            ],
        ),
    }
}

pub open spec fn enc_messages(ms: Seq<MessageV>) -> Seq<JVal> {
    Seq::new(ms.len(), |i: int| enc_message(ms[i]))
}

pub open spec fn enc_request(r: RequestV) -> JVal {
    JVal::Obj(
        seq![("messages"@, JVal::Arr(enc_messages(r.messages))), ("model"@, JVal::Str(r.model))]
            + opt_pair("max_tokens"@, enc_opt_int(r.max_tokens)) + opt_pair(
            "max_completion_tokens"@,
            enc_opt_int(r.max_completion_tokens),
        ) + opt_pair("stream"@, enc_opt_bool(r.stream)) + opt_pair("user"@, enc_opt_str(r.user))
            + r.extra,
    )
}

pub open spec fn enc_usage(u: UsageV) -> JVal {
    JVal::Obj(
        seq![
            ("completion_tokens"@, JVal::Int(u.completion_tokens)),
            ("prompt_tokens"@, JVal::Int(u.prompt_tokens)),
            ("total_tokens"@, JVal::Int(u.total_tokens)),
            ("completion_tokens_details"@, u.completion_tokens_details),
            ("prompt_tokens_details"@, u.prompt_tokens_details),
        ],
    )
}

pub open spec fn enc_choice(c: ChoiceV) -> JVal {
    JVal::Obj(
        seq![
            ("index"@, JVal::Int(c.index)),
            ("message"@, enc_message(c.message)),
            ("finish_reason"@, JVal::Str(c.finish_reason)),
            (
                "logprobs"@,
                match c.logprobs {
                    Some(v) => v,
                    None => JVal::Null,
                },
            ),
        ],
    )
}

pub open spec fn enc_choices(cs: Seq<ChoiceV>) -> Seq<JVal> {
    Seq::new(cs.len(), |i: int| enc_choice(cs[i]))
}

pub open spec fn enc_response(r: ResponseV) -> JVal {
    JVal::Obj(
        seq![
            ("id"@, JVal::Str(r.id)),
            ("choices"@, JVal::Arr(enc_choices(r.choices))),
            ("created"@, JVal::Int(r.created)),
            ("model"@, JVal::Str(r.model)),
        ] + opt_pair("service_tier"@, enc_opt_str(r.service_tier)) + seq![
            ("system_fingerprint"@, JVal::Str(r.system_fingerprint)),
            ("object"@, JVal::Str(r.object)),
            ("usage"@, enc_usage(r.usage)),
        ],
    )
}

// ---------------------------------------------------------------------------
// Spec-level decoding.
// ---------------------------------------------------------------------------

/// An optional string field: absent and `null` both mean none.
pub open spec fn dec_opt_str(o: Seq<(Seq<char>, JVal)>, k: Seq<char>) -> Option<
    Option<Seq<char>>,
> {
    match lookup(o, k) {
        None => Some(None),
        Some(JVal::Null) => Some(None),
        Some(JVal::Str(s)) => Some(Some(s)),
        Some(_) => None,
    }
}

pub open spec fn i32_range(i: int) -> bool {
    -0x8000_0000 <= i <= 0x7fff_ffff
}

/// An optional integer field within the signed 32-bit range.
pub open spec fn dec_opt_i32(o: Seq<(Seq<char>, JVal)>, k: Seq<char>) -> Option<Option<int>> {
    match lookup(o, k) {
        None => Some(None),
        Some(JVal::Null) => Some(None),
        Some(JVal::Int(i)) => if i32_range(i) {
            Some(Some(i))
        } else {
            None
        },
        Some(_) => None,
    }
}

pub open spec fn dec_opt_bool(o: Seq<(Seq<char>, JVal)>, k: Seq<char>) -> Option<Option<bool>> {
    match lookup(o, k) {
        None => Some(None),
        Some(JVal::Null) => Some(None),
        Some(JVal::Bool(b)) => Some(Some(b)),
        Some(_) => None,
    }
}

/// A required string field.
pub open spec fn dec_req_str(o: Seq<(Seq<char>, JVal)>, k: Seq<char>) -> Option<Seq<char>> {
    match lookup(o, k) {
        Some(JVal::Str(s)) => Some(s),
        _ => None,
    }
}

/// A required integer field within the signed 32-bit range.
pub open spec fn dec_req_i32(o: Seq<(Seq<char>, JVal)>, k: Seq<char>) -> Option<int> {
    match lookup(o, k) {
        Some(JVal::Int(i)) => if i32_range(i) {
            Some(i)
        } else {
            None
        },
        _ => None,
    }
}

/// A required integer field; the tree already bounds it to 64 bits.
pub open spec fn dec_req_i64(o: Seq<(Seq<char>, JVal)>, k: Seq<char>) -> Option<int> {
    match lookup(o, k) {
        Some(JVal::Int(i)) => if -0x8000_0000_0000_0000 <= i <= 0x7fff_ffff_ffff_ffff {
            Some(i)
        } else {
            None
        },
        _ => None,
    }
}

/// A required content field.
pub open spec fn dec_req_content(o: Seq<(Seq<char>, JVal)>) -> Option<ContentV> {
    match lookup(o, "content"@) {
        Some(cj) => dec_content(cj),
        None => None,
    }
}

/// An assistant's content: absent and `null` both mean none.
pub open spec fn dec_opt_content(o: Seq<(Seq<char>, JVal)>) -> Option<Option<ContentV>> {
    match lookup(o, "content"@) {
        None => Some(None),
        Some(JVal::Null) => Some(None),
        Some(cj) => match dec_content(cj) {
            Some(c) => Some(Some(c)),
            None => None,
        },
    }
}

pub open spec fn dec_message(j: JVal) -> Option<MessageV> {
    match j {
        JVal::Obj(o) => match lookup(o, "role"@) {
            Some(JVal::Str(role)) => if role == "developer"@ {
                match (dec_req_content(o), dec_opt_str(o, "name"@)) {
                    (Some(c), Some(n)) => Some(MessageV::Developer { content: c, name: n }),
                    _ => None,
                }
            } else if role == "system"@ {
                match (dec_req_content(o), dec_opt_str(o, "name"@)) {
                    (Some(c), Some(n)) => Some(MessageV::System { content: c, name: n }),
                    _ => None,
                }
            } else if role == "user"@ {
                match (dec_req_content(o), dec_opt_str(o, "name"@)) {
                    (Some(c), Some(n)) => Some(MessageV::User { content: c, name: n }),
                    _ => None,
                }
            } else if role == "assistant"@ {
                match (dec_opt_content(o), dec_opt_str(o, "name"@)) {
                    (Some(c), Some(n)) => Some(
                        MessageV::Assistant { content: c, name: n, extra: msg_extra(o) },
                    ),
                    _ => None,
                }
            } else if role == "tool"@ {
                match (dec_req_content(o), dec_req_str(o, "tool_call"@)) {
                    (Some(c), Some(t)) => Some(MessageV::Tool { content: c, tool_call: t }),
                    _ => None,
                }
            } else if role == "function"@ {
                match (dec_req_content(o), dec_req_str(o, "name"@)) {
                    (Some(c), Some(n)) => Some(MessageV::Function { content: c, name: n }),
                    _ => None,
                }
            } else {
                None
            },
            _ => None,
        },
        _ => None,
    }
}

pub open spec fn dec_messages(a: Seq<JVal>) -> Option<Seq<MessageV>>
    decreases a.len(),
{
    if a.len() == 0 {
        Some(Seq::empty())
    } else {
        match (dec_message(a[0]), dec_messages(a.drop_first())) {
            (Some(m), Some(rest)) => Some(seq![m] + rest),
            _ => None,
        }
    }
}

pub open spec fn dec_request(j: JVal) -> Option<RequestV> {
    match j {
        JVal::Obj(o) => match (lookup(o, "messages"@), lookup(o, "model"@)) {
            (Some(JVal::Arr(ms)), Some(JVal::Str(model))) => match (
                dec_messages(ms),
                dec_opt_i32(o, "max_tokens"@),
                dec_opt_i32(o, "max_completion_tokens"@),
                dec_opt_bool(o, "stream"@),
                dec_opt_str(o, "user"@),
            ) {
                (Some(msgs), Some(mt), Some(mct), Some(st), Some(u)) => Some(
                    RequestV {
                        messages: msgs,
                        model: model,
                        max_tokens: mt,
                        max_completion_tokens: mct,
                        stream: st,
                        user: u,
                        extra: req_extra(o),
                    },
                ),
                _ => None,
            },
            _ => None,
        },
        _ => None,
    }
}

pub open spec fn dec_usage(j: JVal) -> Option<UsageV> {
    match j {
        JVal::Obj(o) => match (
            dec_req_i32(o, "completion_tokens"@),
            dec_req_i32(o, "prompt_tokens"@),
            dec_req_i32(o, "total_tokens"@),
            lookup(o, "completion_tokens_details"@),
            lookup(o, "prompt_tokens_details"@),
        ) {
            (Some(c), Some(p), Some(t), Some(cd), Some(pd)) => Some(
                UsageV {
                    completion_tokens: c,
                    prompt_tokens: p,
                    total_tokens: t,
                    completion_tokens_details: cd,
                    prompt_tokens_details: pd,
                },
            ),
            _ => None,
        },
        _ => None,
    }
}

/// `logprobs` is pass-through: absent and `null` both mean none.
pub open spec fn dec_logprobs(o: Seq<(Seq<char>, JVal)>) -> Option<JVal> {
    match lookup(o, "logprobs"@) {
        None => None,
        Some(JVal::Null) => None,
        Some(v) => Some(v),
    }
}

pub open spec fn dec_choice(j: JVal) -> Option<ChoiceV> {
    match j {
        JVal::Obj(o) => match (
            dec_req_i32(o, "index"@),
            lookup(o, "message"@),
            dec_req_str(o, "finish_reason"@),
        ) {
            (Some(i), Some(mj), Some(f)) => match dec_message(mj) {
                Some(m) => Some(
                    ChoiceV { index: i, message: m, finish_reason: f, logprobs: dec_logprobs(o) },
                ),
                None => None,
            },
            _ => None,
        },
        _ => None,
    }
}

pub open spec fn dec_choices(a: Seq<JVal>) -> Option<Seq<ChoiceV>>
    decreases a.len(),
{
    if a.len() == 0 {
        Some(Seq::empty())
    } else {
        match (dec_choice(a[0]), dec_choices(a.drop_first())) {
            (Some(c), Some(rest)) => Some(seq![c] + rest),
            _ => None,
        }
    }
}

pub open spec fn dec_response(j: JVal) -> Option<ResponseV> {
    match j {
        JVal::Obj(o) => match (
            dec_req_str(o, "id"@),
            lookup(o, "choices"@),
            dec_req_i64(o, "created"@),
            dec_req_str(o, "model"@),
            dec_opt_str(o, "service_tier"@),
            dec_req_str(o, "system_fingerprint"@),
            dec_req_str(o, "object"@),
            lookup(o, "usage"@),
        ) {
            (Some(id), Some(JVal::Arr(cj)), Some(created), Some(model), Some(tier), Some(fp), Some(
                obj,
            ), Some(uj)) => match (dec_choices(cj), dec_usage(uj)) {
                (Some(cs), Some(u)) => Some(
                    ResponseV {
                        id: id,
                        choices: cs,
                        created: created,
                        model: model,
                        service_tier: tier,
                        system_fingerprint: fp,
                        object: obj,
                        usage: u,
                    },
                ),
                _ => None,
            },
            _ => None,
        },
        _ => None,
    }
}

// ---------------------------------------------------------------------------
// Executable encoding.
// ---------------------------------------------------------------------------

/// Appends one field to an object under construction.
fn push_field(o: &mut Vec<(String, Json)>, k: &str, v: Json)
    ensures
        pairs_view(final(o)@) == pairs_view(old(o)@).push((k@, v@)),
{
    let ghost vv = v@;
    o.push((k.to_owned(), v));
    proof {
        assert(pairs_view(o@) =~= pairs_view(old(o)@).push((k@, vv)));
    }
}

pub fn encode_content(c: Content) -> (r: Json)
    ensures
        r@ == enc_content(c@),
{
    let ghost cv = c@;
    match c {
        Content::Text(s) => Json::Str(s),
        Content::Parts(v) => {
            let r = Json::Arr(v);
            proof {
                assert(r@->Arr_0 =~= enc_content(cv)->Arr_0);
            }
            r
        },
    }
}

pub fn encode_message(m: Message) -> (r: Json)
    ensures
        r@ == enc_message(m@),
{
    let ghost mv = m@;
    match m {
        Message::Developer { content, name } => {
            let mut o: Vec<(String, Json)> = Vec::new();
            push_field(&mut o, "role", Json::Str("developer".to_owned()));
            push_field(&mut o, "content", encode_content(content));
            if let Some(n) = name {
                push_field(&mut o, "name", Json::Str(n));
            }
            proof {
                assert(pairs_view(o@) =~= enc_message(mv)->Obj_0);
                crate::json::lemma_obj_view(o);
            }
            Json::Obj(o)
        },
        Message::System { content, name } => {
            let mut o: Vec<(String, Json)> = Vec::new();
            push_field(&mut o, "role", Json::Str("system".to_owned()));
            push_field(&mut o, "content", encode_content(content));
            if let Some(n) = name {
                push_field(&mut o, "name", Json::Str(n));
            }
            proof {
                assert(pairs_view(o@) =~= enc_message(mv)->Obj_0);
                crate::json::lemma_obj_view(o);
            }
            Json::Obj(o)
        },
        Message::User { content, name } => {
            let mut o: Vec<(String, Json)> = Vec::new();
            push_field(&mut o, "role", Json::Str("user".to_owned()));
            push_field(&mut o, "content", encode_content(content));
            if let Some(n) = name {
                push_field(&mut o, "name", Json::Str(n));
            }
            proof {
                assert(pairs_view(o@) =~= enc_message(mv)->Obj_0);
                crate::json::lemma_obj_view(o);
            }
            Json::Obj(o)
        },
        Message::Assistant { content, name, extra } => {
            let mut o: Vec<(String, Json)> = Vec::new();
            push_field(&mut o, "role", Json::Str("assistant".to_owned()));
            if let Some(c) = content {
                push_field(&mut o, "content", encode_content(c));
            }
            if let Some(n) = name {
                push_field(&mut o, "name", Json::Str(n));
            }
            let ghost before = o@;
            let mut ex = extra;
            let ghost exv = ex@;
            o.append(&mut ex);
            proof {
                assert(o@ == before + exv);
                assert(pairs_view(o@) =~= pairs_view(before) + pairs_view(exv));
                assert(pairs_view(o@) =~~= enc_message(mv)->Obj_0);
                crate::json::lemma_obj_view(o);
            }
            Json::Obj(o)
        },
        Message::Tool { content, tool_call } => {
            let mut o: Vec<(String, Json)> = Vec::new();
            push_field(&mut o, "role", Json::Str("tool".to_owned()));
            push_field(&mut o, "content", encode_content(content));
            push_field(&mut o, "tool_call", Json::Str(tool_call));
            proof {
                assert(pairs_view(o@) =~= enc_message(mv)->Obj_0);
                crate::json::lemma_obj_view(o);
            }
            Json::Obj(o)
        },
        Message::Function { content, name } => {
            let mut o: Vec<(String, Json)> = Vec::new();
            push_field(&mut o, "role", Json::Str("function".to_owned()));
            push_field(&mut o, "content", encode_content(content));
            push_field(&mut o, "name", Json::Str(name));
            proof {
                assert(pairs_view(o@) =~= enc_message(mv)->Obj_0);
                crate::json::lemma_obj_view(o);
            }
            Json::Obj(o)
        },
    }
}

/// Encodes a message list, keeping conversation order.
fn encode_messages_vec(ms: Vec<Message>) -> (r: Vec<Json>)
    ensures
        elems_view(r@) == enc_messages(crate::wire::messages_view(ms@)),
{
    let ghost msv = crate::wire::messages_view(ms@);
    let mut rev: Vec<Json> = Vec::new();
    let mut src = ms;
    while src.len() > 0
        invariant
            src@.len() + rev@.len() == msv.len(),
            forall|j: int| 0 <= j < src@.len() ==> (#[trigger] src@[j])@ == msv[j],
            forall|j: int|
                0 <= j < rev@.len() ==> json_view(#[trigger] rev@[j]) == enc_message(
                    msv[msv.len() - 1 - j],
                ),
        decreases src@.len(),
    {
        let m = src.pop().unwrap();
        rev.push(encode_message(m));
    }
    let mut out: Vec<Json> = Vec::new();
    while rev.len() > 0
        invariant
            out@.len() + rev@.len() == msv.len(),
            forall|j: int|
                0 <= j < rev@.len() ==> json_view(#[trigger] rev@[j]) == enc_message(
                    msv[msv.len() - 1 - j],
                ),
            forall|j: int|
                0 <= j < out@.len() ==> json_view(#[trigger] out@[j]) == enc_message(msv[j]),
        decreases rev@.len(),
    {
        let e = rev.pop().unwrap();
        out.push(e);
    }
    proof {
        assert(elems_view(out@) =~= enc_messages(msv));
    }
    out
}

/// Encodes a request to its JSON object, known fields first, unknown
/// top-level fields after them.
pub fn encode_request(r: OpenAIChatCompletionRequest) -> (out: Json)
    ensures
        out@ == enc_request(r@),
{
    let ghost rv = r@;
    let OpenAIChatCompletionRequest {
        messages,
        model,
        max_tokens,
        max_completion_tokens,
        stream,
        user,
        extra,
    } = r;
    let mut o: Vec<(String, Json)> = Vec::new();
    let msgs_json = Json::Arr(encode_messages_vec(messages));
    proof {
        assert(msgs_json@->Arr_0 =~= enc_messages(rv.messages));
        assert(msgs_json@ == JVal::Arr(enc_messages(rv.messages)));
    }
    push_field(&mut o, "messages", msgs_json);
    push_field(&mut o, "model", Json::Str(model));
    if let Some(x) = max_tokens {
        push_field(&mut o, "max_tokens", Json::Int(x as i64));
    }
    if let Some(x) = max_completion_tokens {
        push_field(&mut o, "max_completion_tokens", Json::Int(x as i64));
    }
    if let Some(x) = stream {
        push_field(&mut o, "stream", Json::Bool(x));
    }
    if let Some(x) = user {
        push_field(&mut o, "user", Json::Str(x));
    }
    let ghost before = o@;
    let mut ex = extra;
    let ghost exv = ex@;
    o.append(&mut ex);
    proof {
        assert(o@ == before + exv);
        assert(pairs_view(o@) =~= pairs_view(before) + pairs_view(exv));
        assert(pairs_view(o@) =~= enc_request(rv)->Obj_0);
        crate::json::lemma_obj_view(o);
    }
    Json::Obj(o)
}

pub fn encode_usage(u: Usage) -> (r: Json)
    ensures
        r@ == enc_usage(u@),
{
    let ghost uv = u@;
    let Usage {
        completion_tokens,
        prompt_tokens,
        total_tokens,
        completion_tokens_details,
        prompt_tokens_details,
    } = u;
    let mut o: Vec<(String, Json)> = Vec::new();
    push_field(&mut o, "completion_tokens", Json::Int(completion_tokens as i64));
    push_field(&mut o, "prompt_tokens", Json::Int(prompt_tokens as i64));
    push_field(&mut o, "total_tokens", Json::Int(total_tokens as i64));
    push_field(&mut o, "completion_tokens_details", completion_tokens_details);
    push_field(&mut o, "prompt_tokens_details", prompt_tokens_details);
    proof {
        assert(pairs_view(o@) =~= enc_usage(uv)->Obj_0);
        crate::json::lemma_obj_view(o);
    }
    Json::Obj(o)
}

pub fn encode_choice(c: Choice) -> (r: Json)
    ensures
        r@ == enc_choice(c@),
{
    let ghost cv = c@;
    let Choice { index, message, finish_reason, logprobs } = c;
    let mut o: Vec<(String, Json)> = Vec::new();
    push_field(&mut o, "index", Json::Int(index as i64));
    push_field(&mut o, "message", encode_message(message));
    push_field(&mut o, "finish_reason", Json::Str(finish_reason));
    match logprobs {
        Some(v) => push_field(&mut o, "logprobs", v),
        None => push_field(&mut o, "logprobs", Json::Null),
    }
    proof {
        assert(pairs_view(o@) =~= enc_choice(cv)->Obj_0);
        crate::json::lemma_obj_view(o);
    }
    Json::Obj(o)
}

/// Encodes a choice list, keeping order.
fn encode_choices_vec(cs: Vec<Choice>) -> (r: Vec<Json>)
    ensures
        elems_view(r@) == enc_choices(crate::wire::choices_view(cs@)),
{
    let ghost csv = crate::wire::choices_view(cs@);
    let mut rev: Vec<Json> = Vec::new();
    let mut src = cs;
    while src.len() > 0
        invariant
            src@.len() + rev@.len() == csv.len(),
            forall|j: int| 0 <= j < src@.len() ==> (#[trigger] src@[j])@ == csv[j],
            forall|j: int|
                0 <= j < rev@.len() ==> json_view(#[trigger] rev@[j]) == enc_choice(
                    csv[csv.len() - 1 - j],
                ),
        decreases src@.len(),
    {
        let c = src.pop().unwrap();
        rev.push(encode_choice(c));
    }
    let mut out: Vec<Json> = Vec::new();
    while rev.len() > 0
        invariant
            out@.len() + rev@.len() == csv.len(),
            forall|j: int|
                0 <= j < rev@.len() ==> json_view(#[trigger] rev@[j]) == enc_choice(
                    csv[csv.len() - 1 - j],
                ),
            forall|j: int|
                0 <= j < out@.len() ==> json_view(#[trigger] out@[j]) == enc_choice(csv[j]),
        decreases rev@.len(),
    {
        let e = rev.pop().unwrap();
        out.push(e);
    }
    proof {
        assert(elems_view(out@) =~= enc_choices(csv));
    }
    out
}

/// Encodes a response to its JSON object.
pub fn encode_response(r: OpenAIChatCompletionResponse) -> (out: Json)
    ensures
        out@ == enc_response(r@),
{
    let ghost rv = r@;
    let OpenAIChatCompletionResponse {
        id,
        choices,
        created,
        model,
        service_tier,
        system_fingerprint,
        object,
        usage,
    } = r;
    let mut o: Vec<(String, Json)> = Vec::new();
    push_field(&mut o, "id", Json::Str(id));
    let choices_json = Json::Arr(encode_choices_vec(choices));
    proof {
        assert(choices_json@->Arr_0 =~= enc_choices(rv.choices));
        assert(choices_json@ == JVal::Arr(enc_choices(rv.choices)));
    }
    push_field(&mut o, "choices", choices_json);
    push_field(&mut o, "created", Json::Int(created));
    push_field(&mut o, "model", Json::Str(model));
    if let Some(x) = service_tier {
        push_field(&mut o, "service_tier", Json::Str(x));
    }
    let ghost mid = o@;
    push_field(&mut o, "system_fingerprint", Json::Str(system_fingerprint));
    push_field(&mut o, "object", Json::Str(object));
    push_field(&mut o, "usage", encode_usage(usage));
    proof {
        assert(pairs_view(o@) =~= enc_response(rv)->Obj_0);
        crate::json::lemma_obj_view(o);
    }
    Json::Obj(o)
}

// ---------------------------------------------------------------------------
// Executable decoding.
// ---------------------------------------------------------------------------

/// An optional string field of an object.
fn get_opt_str(j: &Json, k: &str) -> (r: Result<Option<String>, ChatError>)
    ensures
        j@ matches JVal::Obj(o) ==> match dec_opt_str(o, k@) {
            Some(v) => r matches Ok(x) && opt_str_view(x) == v,
            None => r matches Err(e) && e == ChatError::SchemaViolation,
        },
{
    match j.get(k) {
        None => Ok(None),
        Some(Json::Null) => Ok(None),
        Some(Json::Str(s)) => Ok(Some(s.clone())),
        Some(_) => Err(ChatError::SchemaViolation),
    }
}

/// An optional integer field of an object, within the signed 32-bit range.
fn get_opt_i32(j: &Json, k: &str) -> (r: Result<Option<i32>, ChatError>)
    ensures
        j@ matches JVal::Obj(o) ==> match dec_opt_i32(o, k@) {
            Some(v) => r matches Ok(x) && opt_int_view(x) == v,
            None => r matches Err(e) && e == ChatError::SchemaViolation,
        },
{
    match j.get(k) {
        None => Ok(None),
        Some(Json::Null) => Ok(None),
        Some(Json::Int(x)) => {
            let x = *x;
            if -0x8000_0000i64 <= x && x <= 0x7fff_ffffi64 {
                Ok(Some(x as i32))
            } else {
                Err(ChatError::SchemaViolation)
            }
        },
        Some(_) => Err(ChatError::SchemaViolation),
    }
}

/// An optional boolean field of an object.
fn get_opt_bool(j: &Json, k: &str) -> (r: Result<Option<bool>, ChatError>)
    ensures
        j@ matches JVal::Obj(o) ==> match dec_opt_bool(o, k@) {
            Some(v) => r matches Ok(x) && x == v,
            None => r matches Err(e) && e == ChatError::SchemaViolation,
        },
{
    match j.get(k) {
        None => Ok(None),
        Some(Json::Null) => Ok(None),
        Some(Json::Bool(b)) => Ok(Some(*b)),
        Some(_) => Err(ChatError::SchemaViolation),
    }
}

/// A required string field of an object.
fn get_req_str(j: &Json, k: &str) -> (r: Result<String, ChatError>)
    ensures
        !(j@ matches JVal::Obj(o2)) ==> (r matches Err(e) && e == ChatError::SchemaViolation),
        j@ matches JVal::Obj(o) ==> match dec_req_str(o, k@) {
            Some(v) => r matches Ok(x) && x@ == v,
            None => r matches Err(e) && e == ChatError::SchemaViolation,
        },
{
    match j.get(k) {
        Some(Json::Str(s)) => Ok(s.clone()),
        _ => Err(ChatError::SchemaViolation),
    }
}

/// A required integer field of an object, within the signed 32-bit range.
fn get_req_i32(j: &Json, k: &str) -> (r: Result<i32, ChatError>)
    ensures
        !(j@ matches JVal::Obj(o2)) ==> (r matches Err(e) && e == ChatError::SchemaViolation),
        j@ matches JVal::Obj(o) ==> match dec_req_i32(o, k@) {
            Some(v) => r matches Ok(x) && x as int == v,
            None => r matches Err(e) && e == ChatError::SchemaViolation,
        },
{
    match j.get(k) {
        Some(Json::Int(x)) => {
            let x = *x;
            if -0x8000_0000i64 <= x && x <= 0x7fff_ffffi64 {
                Ok(x as i32)
            } else {
                Err(ChatError::SchemaViolation)
            }
        },
        _ => Err(ChatError::SchemaViolation),
    }
}

/// A required 64-bit integer field of an object.
fn get_req_i64(j: &Json, k: &str) -> (r: Result<i64, ChatError>)
    ensures
        !(j@ matches JVal::Obj(o2)) ==> (r matches Err(e) && e == ChatError::SchemaViolation),
        j@ matches JVal::Obj(o) ==> match dec_req_i64(o, k@) {
            Some(v) => r matches Ok(x) && x as int == v,
            None => r matches Err(e) && e == ChatError::SchemaViolation,
        },
{
    match j.get(k) {
        Some(Json::Int(x)) => Ok(*x),
        _ => Err(ChatError::SchemaViolation),
    }
}

/// Structural discrimination of content: a string is text, an array is the
/// structured form, any other JSON kind breaks the schema.
pub fn decode_content(j: &Json) -> (r: Result<Content, ChatError>)
    ensures
        match dec_content(j@) {
            Some(c) => r matches Ok(x) && x@ == c,
            None => r matches Err(e) && e == ChatError::SchemaViolation,
        },
{
    match j {
        Json::Str(s) => Ok(Content::Text(s.clone())),
        Json::Arr(v) => {
            let mut out: Vec<Json> = Vec::new();
            let mut i: usize = 0;
            while i < v.len()
                invariant
                    i <= v.len(),
                    out@.len() == i as int,
                    forall|q: int| 0 <= q < i ==> json_view(#[trigger] out@[q]) == json_view(v@[q]),
                decreases v.len() - i,
            {
                let e = v[i].dup();
                out.push(e);
                i = i + 1;
            }
            let r = Content::Parts(out);
            proof {
                assert(r@ =~= dec_content(j@)->Some_0);
            }
            Ok(r)
        },
        _ => Err(ChatError::SchemaViolation),
    }
}

/// A required content field of an object.
fn get_req_content(j: &Json) -> (r: Result<Content, ChatError>)
    ensures
        j@ matches JVal::Obj(o) ==> match dec_req_content(o) {
            Some(c) => r matches Ok(x) && x@ == c,
            None => r matches Err(e) && e == ChatError::SchemaViolation,
        },
{
    match j.get("content") {
        Some(cj) => decode_content(cj),
        None => Err(ChatError::SchemaViolation),
    }
}

/// An assistant content field: absent and `null` both mean none.
fn get_opt_content(j: &Json) -> (r: Result<Option<Content>, ChatError>)
    ensures
        j@ matches JVal::Obj(o) ==> match dec_opt_content(o) {
            Some(v) => r matches Ok(x) && (match x {
                Some(c) => v == Some(c@),
                None => v is None,
            }),
            None => r matches Err(e) && e == ChatError::SchemaViolation,
        },
{
    match j.get("content") {
        None => Ok(None),
        Some(Json::Null) => Ok(None),
        Some(cj) => match decode_content(cj) {
            Ok(c) => Ok(Some(c)),
            Err(e) => Err(e),
        },
    }
}

/// Keeps, in order, the fields of an object whose keys an assistant message
/// does not own.
#[verifier::loop_isolation(false)]
fn msg_extras(v: &Vec<(String, Json)>) -> (r: Vec<(String, Json)>)
    ensures
        pairs_view(r@) == msg_extra(pairs_view(v@)),
{
    let mut out: Vec<(String, Json)> = Vec::new();
    let mut i: usize = 0;
    while i < v.len()
        invariant
            i <= v.len(),
            pairs_view(out@) == msg_extra(pairs_view(v@).take(i as int)),
        decreases v.len() - i,
    {
        let ghost pre = pairs_view(v@).take(i as int);
        let k = &v[i].0;
        let keep = !(*k == "role".to_owned() || *k == "content".to_owned() || *k
            == "name".to_owned());
        if keep {
            let kk = v[i].0.clone();
            let vv = v[i].1.dup();
            out.push((kk, vv));
        }
        i = i + 1;
        proof {
            let cur = pairs_view(v@).take(i as int);
            assert(cur.drop_last() =~= pre);
            assert(cur.last() == pairs_view(v@)[i - 1]);
            if keep {
                assert(pairs_view(out@) =~= msg_extra(pre).push(pairs_view(v@)[i - 1]));
            }
            assert(pairs_view(out@) == msg_extra(cur));
        }
    }
    proof {
        assert(pairs_view(v@).take(v@.len() as int) =~= pairs_view(v@));
    }
    out
}

/// Keeps, in order, the top-level fields of an object whose keys a request
/// does not own.
#[verifier::loop_isolation(false)]
fn req_extras(v: &Vec<(String, Json)>) -> (r: Vec<(String, Json)>)
    ensures
        pairs_view(r@) == req_extra(pairs_view(v@)),
{
    let mut out: Vec<(String, Json)> = Vec::new();
    let mut i: usize = 0;
    while i < v.len()
        invariant
            i <= v.len(),
            pairs_view(out@) == req_extra(pairs_view(v@).take(i as int)),
        decreases v.len() - i,
    {
        let ghost pre = pairs_view(v@).take(i as int);
        let k = &v[i].0;
        let keep = !(*k == "messages".to_owned() || *k == "model".to_owned() || *k
            == "max_tokens".to_owned() || *k == "max_completion_tokens".to_owned() || *k
            == "stream".to_owned() || *k == "user".to_owned());
        if keep {
            let kk = v[i].0.clone();
            let vv = v[i].1.dup();
            out.push((kk, vv));
        }
        i = i + 1;
        proof {
            let cur = pairs_view(v@).take(i as int);
            assert(cur.drop_last() =~= pre);
            assert(cur.last() == pairs_view(v@)[i - 1]);
            if keep {
                assert(pairs_view(out@) =~= req_extra(pre).push(pairs_view(v@)[i - 1]));
            }
            assert(pairs_view(out@) == req_extra(cur));
        }
    }
    proof {
        assert(pairs_view(v@).take(v@.len() as int) =~= pairs_view(v@));
    }
    out
}

/// Decodes a message, dispatching on its `role` tag. On an `assistant`
/// message every key the schema does not own is captured, with its value,
/// into the extra-field map.
pub fn decode_message(j: &Json) -> (r: Result<Message, ChatError>)
    ensures
        match dec_message(j@) {
            Some(m) => r matches Ok(msg) && msg@ == m,
            None => r matches Err(e) && e == ChatError::SchemaViolation,
        },
{
    let pairs = match j {
        Json::Obj(v) => v,
        _ => { return Err(ChatError::SchemaViolation) },
    };
    proof {
        crate::json::lemma_obj_view(*pairs);
    }
    let role = match j.get("role") {
        Some(Json::Str(s)) => s,
        _ => { return Err(ChatError::SchemaViolation) },
    };
    if *role == "developer".to_owned() {
        let content = match get_req_content(j) {
            Ok(c) => c,
            Err(e) => { return Err(e) },
        };
        let name = match get_opt_str(j, "name") {
            Ok(n) => n,
            Err(e) => { return Err(e) },
        };
        Ok(Message::Developer { content, name })
    } else if *role == "system".to_owned() {
        let content = match get_req_content(j) {
            Ok(c) => c,
            Err(e) => { return Err(e) },
        };
        let name = match get_opt_str(j, "name") {
            Ok(n) => n,
            Err(e) => { return Err(e) },
        };
        Ok(Message::System { content, name })
    } else if *role == "user".to_owned() {
        let content = match get_req_content(j) {
            Ok(c) => c,
            Err(e) => { return Err(e) },
        };
        let name = match get_opt_str(j, "name") {
            Ok(n) => n,
            Err(e) => { return Err(e) },
        };
        Ok(Message::User { content, name })
    } else if *role == "assistant".to_owned() {
        let content = match get_opt_content(j) {
            Ok(c) => c,
            Err(e) => { return Err(e) },
        };
        let name = match get_opt_str(j, "name") {
            Ok(n) => n,
            Err(e) => { return Err(e) },
        };
        let extra = msg_extras(pairs);
        Ok(Message::Assistant { content, name, extra })
    } else if *role == "tool".to_owned() {
        let content = match get_req_content(j) {
            Ok(c) => c,
            Err(e) => { return Err(e) },
        };
        let tool_call = match get_req_str(j, "tool_call") {
            Ok(t) => t,
            Err(e) => { return Err(e) },
        };
        Ok(Message::Tool { content, tool_call })
    } else if *role == "function".to_owned() {
        let content = match get_req_content(j) {
            Ok(c) => c,
            Err(e) => { return Err(e) },
        };
        let name = match get_req_str(j, "name") {
            Ok(n) => n,
            Err(e) => { return Err(e) },
        };
        Ok(Message::Function { content, name })
    } else {
        Err(ChatError::SchemaViolation)
    }
}

proof fn lemma_dec_messages_ok(a: Seq<JVal>, ms: Seq<MessageV>)
    requires
        ms.len() == a.len(),
        forall|i: int| 0 <= i < a.len() ==> dec_message(#[trigger] a[i]) == Some(ms[i]),
    ensures
        dec_messages(a) == Some(ms),
    decreases a.len(),
{
    if a.len() == 0 {
        assert(ms =~= Seq::empty());
    } else {
        lemma_dec_messages_ok(a.drop_first(), ms.drop_first());
        assert(ms =~= seq![ms[0]] + ms.drop_first());
    }
}

proof fn lemma_dec_messages_fail(a: Seq<JVal>, i: int)
    requires
        0 <= i < a.len(),
        dec_message(a[i]) is None,
    ensures
        dec_messages(a) is None,
    decreases a.len(),
{
    if i > 0 {
        lemma_dec_messages_fail(a.drop_first(), i - 1);
    }
}

/// Decodes a message array in order.
#[verifier::loop_isolation(false)]
fn decode_messages_vec(v: &Vec<Json>) -> (r: Result<Vec<Message>, ChatError>)
    ensures
        match dec_messages(elems_view(v@)) {
            Some(ms) => r matches Ok(out) && crate::wire::messages_view(out@) == ms,
            None => r matches Err(e) && e == ChatError::SchemaViolation,
        },
{
    let mut out: Vec<Message> = Vec::new();
    let mut i: usize = 0;
    while i < v.len()
        invariant
            i <= v.len(),
            out@.len() == i as int,
            forall|q: int|
                0 <= q < i ==> dec_message(elems_view(v@)[q]) == Some((#[trigger] out@[q])@),
        decreases v.len() - i,
    {
        match decode_message(&v[i]) {
            Ok(m) => {
                out.push(m);
            },
            Err(e) => {
                proof {
                    lemma_dec_messages_fail(elems_view(v@), i as int);
                }
                return Err(e);
            },
        }
        i = i + 1;
    }
    proof {
        lemma_dec_messages_ok(elems_view(v@), crate::wire::messages_view(out@));
    }
    Ok(out)
}

/// Decodes a request object; top-level keys the schema does not own are
/// captured, with their values, into the request's extra-field map.
pub fn decode_request(j: &Json) -> (r: Result<OpenAIChatCompletionRequest, ChatError>)
    ensures
        match dec_request(j@) {
            Some(rv) => r matches Ok(req) && req@ == rv,
            None => r matches Err(e) && e == ChatError::SchemaViolation,
        },
{
    let pairs = match j {
        Json::Obj(v) => v,
        _ => { return Err(ChatError::SchemaViolation) },
    };
    proof {
        crate::json::lemma_obj_view(*pairs);
    }
    let msgs_json = match j.get("messages") {
        Some(Json::Arr(ms)) => ms,
        _ => { return Err(ChatError::SchemaViolation) },
    };
    let model = match j.get("model") {
        Some(Json::Str(s)) => s.clone(),
        _ => { return Err(ChatError::SchemaViolation) },
    };
    proof {
        crate::json::lemma_arr_view(*msgs_json);
    }
    let messages = match decode_messages_vec(msgs_json) {
        Ok(ms) => ms,
        Err(e) => { return Err(e) },
    };
    let max_tokens = match get_opt_i32(j, "max_tokens") {
        Ok(x) => x,
        Err(e) => { return Err(e) },
    };
    let max_completion_tokens = match get_opt_i32(j, "max_completion_tokens") {
        Ok(x) => x,
        Err(e) => { return Err(e) },
    };
    let stream = match get_opt_bool(j, "stream") {
        Ok(x) => x,
        Err(e) => { return Err(e) },
    };
    let user = match get_opt_str(j, "user") {
        Ok(x) => x,
        Err(e) => { return Err(e) },
    };
    let extra = req_extras(pairs);
    let req = OpenAIChatCompletionRequest {
        messages,
        model,
        max_tokens,
        max_completion_tokens,
        stream,
        user,
        extra,
    };
    proof {
        assert(req@ =~= dec_request(j@)->Some_0);
    }
    Ok(req)
}

/// Decodes the usage record; the two vendor detail fields are required and
/// kept verbatim.
pub fn decode_usage(j: &Json) -> (r: Result<Usage, ChatError>)
    ensures
        match dec_usage(j@) {
            Some(u) => r matches Ok(x) && x@ == u,
            None => r matches Err(e) && e == ChatError::SchemaViolation,
        },
{
    let completion_tokens = match get_req_i32(j, "completion_tokens") {
        Ok(x) => x,
        Err(e) => { return Err(e) },
    };
    let prompt_tokens = match get_req_i32(j, "prompt_tokens") {
        Ok(x) => x,
        Err(e) => { return Err(e) },
    };
    let total_tokens = match get_req_i32(j, "total_tokens") {
        Ok(x) => x,
        Err(e) => { return Err(e) },
    };
    let completion_tokens_details = match j.get("completion_tokens_details") {
        Some(d) => d.dup(),
        None => { return Err(ChatError::SchemaViolation) },
    };
    let prompt_tokens_details = match j.get("prompt_tokens_details") {
        Some(d) => d.dup(),
        None => { return Err(ChatError::SchemaViolation) },
    };
    Ok(
        Usage {
            completion_tokens,
            prompt_tokens,
            total_tokens,
            completion_tokens_details,
            prompt_tokens_details,
        },
    )
}

/// Decodes one choice; `logprobs` is pass-through.
pub fn decode_choice(j: &Json) -> (r: Result<Choice, ChatError>)
    ensures
        match dec_choice(j@) {
            Some(c) => r matches Ok(x) && x@ == c,
            None => r matches Err(e) && e == ChatError::SchemaViolation,
        },
{
    let index = match get_req_i32(j, "index") {
        Ok(x) => x,
        Err(e) => { return Err(e) },
    };
    let message = match j.get("message") {
        Some(mj) => match decode_message(mj) {
            Ok(m) => m,
            Err(e) => { return Err(e) },
        },
        None => { return Err(ChatError::SchemaViolation) },
    };
    let finish_reason = match get_req_str(j, "finish_reason") {
        Ok(x) => x,
        Err(e) => { return Err(e) },
    };
    let logprobs = match j.get("logprobs") {
        None => None,
        Some(Json::Null) => None,
        Some(v) => Some(v.dup()),
    };
    Ok(Choice { index, message, finish_reason, logprobs })
}

proof fn lemma_dec_choices_ok(a: Seq<JVal>, cs: Seq<ChoiceV>)
    requires
        cs.len() == a.len(),
        forall|i: int| 0 <= i < a.len() ==> dec_choice(#[trigger] a[i]) == Some(cs[i]),
    ensures
        dec_choices(a) == Some(cs),
    decreases a.len(),
{
    if a.len() == 0 {
        assert(cs =~= Seq::empty());
    } else {
        lemma_dec_choices_ok(a.drop_first(), cs.drop_first());
        assert(cs =~= seq![cs[0]] + cs.drop_first());
    }
}

proof fn lemma_dec_choices_fail(a: Seq<JVal>, i: int)
    requires
        0 <= i < a.len(),
        dec_choice(a[i]) is None,
    ensures
        dec_choices(a) is None,
    decreases a.len(),
{
    if i > 0 {
        lemma_dec_choices_fail(a.drop_first(), i - 1);
    }
}

/// Decodes a choice array in order.
#[verifier::loop_isolation(false)]
fn decode_choices_vec(v: &Vec<Json>) -> (r: Result<Vec<Choice>, ChatError>)
    ensures
        match dec_choices(elems_view(v@)) {
            Some(cs) => r matches Ok(out) && crate::wire::choices_view(out@) == cs,
            None => r matches Err(e) && e == ChatError::SchemaViolation,
        },
{
    let mut out: Vec<Choice> = Vec::new();
    let mut i: usize = 0;
    while i < v.len()
        invariant
            i <= v.len(),
            out@.len() == i as int,
            forall|q: int|
                0 <= q < i ==> dec_choice(elems_view(v@)[q]) == Some((#[trigger] out@[q])@),
        decreases v.len() - i,
    {
        match decode_choice(&v[i]) {
            Ok(c) => {
                out.push(c);
            },
            Err(e) => {
                proof {
                    lemma_dec_choices_fail(elems_view(v@), i as int);
                }
                return Err(e);
            },
        }
        i = i + 1;
    }
    proof {
        lemma_dec_choices_ok(elems_view(v@), crate::wire::choices_view(out@));
    }
    Ok(out)
}

/// Decodes a response object. Top-level keys the schema does not know are
/// ignored, as the response model is not extensible.
pub fn decode_response(j: &Json) -> (r: Result<OpenAIChatCompletionResponse, ChatError>)
    ensures
        match dec_response(j@) {
            Some(rv) => r matches Ok(resp) && resp@ == rv,
            None => r matches Err(e) && e == ChatError::SchemaViolation,
        },
{
    let id = match get_req_str(j, "id") {
        Ok(x) => x,
        Err(e) => { return Err(e) },
    };
    let choices_json = match j.get("choices") {
        Some(Json::Arr(cs)) => cs,
        _ => { return Err(ChatError::SchemaViolation) },
    };
    proof {
        crate::json::lemma_arr_view(*choices_json);
    }
    let choices = match decode_choices_vec(choices_json) {
        Ok(cs) => cs,
        Err(e) => { return Err(e) },
    };
    let created = match get_req_i64(j, "created") {
        Ok(x) => x,
        Err(e) => { return Err(e) },
    };
    let model = match get_req_str(j, "model") {
        Ok(x) => x,
        Err(e) => { return Err(e) },
    };
    let service_tier = match get_opt_str(j, "service_tier") {
        Ok(x) => x,
        Err(e) => { return Err(e) },
    };
    let system_fingerprint = match get_req_str(j, "system_fingerprint") {
        Ok(x) => x,
        Err(e) => { return Err(e) },
    };
    let object = match get_req_str(j, "object") {
        Ok(x) => x,
        Err(e) => { return Err(e) },
    };
    let usage = match j.get("usage") {
        Some(uj) => match decode_usage(uj) {
            Ok(u) => u,
            Err(e) => { return Err(e) },
        },
        None => { return Err(ChatError::SchemaViolation) },
    };
    let resp = OpenAIChatCompletionResponse {
        id,
        choices,
        created,
        model,
        service_tier,
        system_fingerprint,
        object,
        usage,
    };
    proof {
        assert(resp@ =~= dec_response(j@)->Some_0);
    }
    Ok(resp)
}

} // verus!