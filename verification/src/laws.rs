//! The laws the wire model obeys, proved over the spec-level codecs.
//!
//! The central one is round-trip fidelity: decoding an encoded entity gives
//! the entity back, for every well-formed entity. Well-formedness only rules
//! out values no decode can produce (an extra field that shadows a key the
//! schema owns, a `logprobs` of JSON `null` wrapped in `Some`, an integer
//! field outside its machine range).

use vstd::prelude::*;
use crate::json::{JVal, lookup, lemma_lookup_add};
use crate::wire::{ContentV, MessageV, RequestV, ResponseV, ChoiceV, UsageV, msg_of_role};
use crate::codec::{
    dec_content, dec_message, dec_messages, dec_request, dec_usage, dec_choice, dec_choices,
    dec_response, enc_content, enc_message, enc_messages, enc_request, enc_usage, enc_choice,
    enc_choices, enc_response, enc_opt_content, enc_opt_str, enc_opt_int, enc_opt_bool,
    msg_known_key, msg_extra, req_known_key, req_extra, opt_pair, i32_range,
};

verus! {

broadcast use vstd::string::group_string_axioms;

/// A message that decoding could have produced: extra fields of an assistant
/// message never shadow the keys the schema owns.
pub open spec fn msg_wf(m: MessageV) -> bool {
    match m {
        MessageV::Assistant { extra, .. } => forall|i: int|
            0 <= i < extra.len() ==> !msg_known_key((#[trigger] extra[i]).0),
        _ => true,
    }
}

/// A request that decoding could have produced.
pub open spec fn request_wf(r: RequestV) -> bool {
    &&& forall|i: int| 0 <= i < r.messages.len() ==> msg_wf(#[trigger] r.messages[i])
    &&& forall|i: int| 0 <= i < r.extra.len() ==> !req_known_key((#[trigger] r.extra[i]).0)
    &&& (r.max_tokens matches Some(x) ==> i32_range(x))
    &&& (r.max_completion_tokens matches Some(x) ==> i32_range(x))
}

/// A choice that decoding could have produced.
pub open spec fn choice_wf(c: ChoiceV) -> bool {
    &&& msg_wf(c.message)
    &&& c.logprobs != Some(JVal::Null)
    &&& i32_range(c.index)
}

/// A usage record that decoding could have produced.
pub open spec fn usage_wf(u: UsageV) -> bool {
    i32_range(u.completion_tokens) && i32_range(u.prompt_tokens) && i32_range(u.total_tokens)
}

/// A response that decoding could have produced.
pub open spec fn response_wf(r: ResponseV) -> bool {
    &&& forall|i: int| 0 <= i < r.choices.len() ==> choice_wf(#[trigger] r.choices[i])
    &&& usage_wf(r.usage)
    &&& -0x8000_0000_0000_0000 <= r.created <= 0x7fff_ffff_ffff_ffff
}

proof fn lemma_lookup_cons(p: (Seq<char>, JVal), rest: Seq<(Seq<char>, JVal)>, k: Seq<char>)
    ensures
        lookup(seq![p] + rest, k) == if p.0 == k {
            Some(p.1)
        } else {
            lookup(rest, k)
        },
{
    assert((seq![p] + rest)[0] == p);
    assert((seq![p] + rest).drop_first() =~= rest);
}

proof fn lemma_lookup_opt(kk: Seq<char>, vv: Option<JVal>, k: Seq<char>)
    ensures
        lookup(opt_pair(kk, vv), k) == if kk == k {
            vv
        } else {
            None
        },
{
    match vv {
        Some(x) => {
            assert(opt_pair(kk, vv) =~= seq![(kk, x)] + Seq::empty());
            lemma_lookup_cons((kk, x), Seq::empty(), k);
        },
        None => {
        },
    }
}

/// All the keys a message object can own are distinct from one another.
proof fn lemma_msg_keys()
    ensures
        "role"@ != "content"@,
        "role"@ != "name"@,
        "role"@ != "tool_call"@,
        "content"@ != "name"@,
        "content"@ != "tool_call"@,
        "name"@ != "tool_call"@,
        msg_known_key("role"@),
        msg_known_key("content"@),
        msg_known_key("name"@),
        "developer"@ != "system"@,
        "developer"@ != "user"@,
        "developer"@ != "assistant"@,
        "developer"@ != "tool"@,
        "developer"@ != "function"@,
        "system"@ != "user"@,
        "system"@ != "assistant"@,
        "system"@ != "tool"@,
        "system"@ != "function"@,
        "user"@ != "assistant"@,
        "user"@ != "tool"@,
        "user"@ != "function"@,
        "assistant"@ != "tool"@,
        "assistant"@ != "function"@,
        "tool"@ != "function"@,
{
    reveal_strlit("role");
    reveal_strlit("content");
    reveal_strlit("name");
    reveal_strlit("tool_call");
    reveal_strlit("developer");
    reveal_strlit("system");
    reveal_strlit("user");
    reveal_strlit("assistant");
    reveal_strlit("tool");
    reveal_strlit("function");
    assert("role"@.len() == 4);
    assert("content"@.len() == 7);
    assert("name"@.len() == 4);
    assert("tool_call"@.len() == 9);
    assert("developer"@.len() == 9);
    assert("system"@.len() == 6);
    assert("user"@.len() == 4);
    assert("assistant"@.len() == 9);
    assert("tool"@.len() == 4);
    assert("function"@.len() == 8);
    assert("role"@[0] == 'r' && "name"@[0] == 'n');
    assert("user"@[0] == 'u' && "tool"@[0] == 't');
    assert("developer"@[0] == 'd' && "assistant"@[0] == 'a');
}

/// Decoding content undoes encoding it, for every content value.
pub proof fn lemma_content_round_trip(c: ContentV)
    ensures
        dec_content(enc_content(c)) == Some(c),
{
}

/// Where content decoding succeeds, re-encoding reproduces the original JSON
/// value exactly: the structural union loses nothing in either direction.
pub proof fn lemma_content_reencode(cj: JVal)
    requires
        dec_content(cj) is Some,
    ensures
        enc_content(dec_content(cj)->Some_0) == cj,
{
}

proof fn lemma_msg_extra_known(s: Seq<(Seq<char>, JVal)>)
    requires
        forall|i: int| 0 <= i < s.len() ==> msg_known_key((#[trigger] s[i]).0),
    ensures
        msg_extra(s) == Seq::<(Seq<char>, JVal)>::empty(),
    decreases s.len(),
{
    if s.len() > 0 {
        lemma_msg_extra_known(s.drop_last());
    }
}

proof fn lemma_msg_extra_split(s: Seq<(Seq<char>, JVal)>, e: Seq<(Seq<char>, JVal)>)
    requires
        forall|i: int| 0 <= i < s.len() ==> msg_known_key((#[trigger] s[i]).0),
        forall|i: int| 0 <= i < e.len() ==> !msg_known_key((#[trigger] e[i]).0),
    ensures
        msg_extra(s + e) == e,
    decreases e.len(),
{
    if e.len() == 0 {
        assert(s + e =~= s);
        lemma_msg_extra_known(s);
    } else {
        assert((s + e).drop_last() =~= s + e.drop_last());
        assert((s + e).last() == e.last());
        lemma_msg_extra_split(s, e.drop_last());
        assert(msg_extra(s + e) =~= e);
    }
}

/// An extra field survives into what decoding strips.
proof fn lemma_msg_extra_keeps(o: Seq<(Seq<char>, JVal)>, i: int)
    requires
        0 <= i < o.len(),
        !msg_known_key(o[i].0),
    ensures
        msg_extra(o).contains(o[i]),
    decreases o.len(),
{
    if i == o.len() - 1 {
        assert(msg_extra(o).last() == o[i]);
    } else {
        lemma_msg_extra_keeps(o.drop_last(), i);
        let r = msg_extra(o.drop_last());
        let w = choose|w: int| 0 <= w < r.len() && r[w] == o.drop_last()[i];
        if msg_known_key(o.last().0) {
            assert(msg_extra(o)[w] == o[i]);
        } else {
            assert(msg_extra(o) == r.push(o.last()));
            assert(msg_extra(o)[w] == o[i]);
        }
    }
}

proof fn lemma_req_extra_known(s: Seq<(Seq<char>, JVal)>)
    requires
        forall|i: int| 0 <= i < s.len() ==> req_known_key((#[trigger] s[i]).0),
    ensures
        req_extra(s) == Seq::<(Seq<char>, JVal)>::empty(),
    decreases s.len(),
{
    if s.len() > 0 {
        lemma_req_extra_known(s.drop_last());
    }
}

proof fn lemma_req_extra_split(s: Seq<(Seq<char>, JVal)>, e: Seq<(Seq<char>, JVal)>)
    requires
        forall|i: int| 0 <= i < s.len() ==> req_known_key((#[trigger] s[i]).0),
        forall|i: int| 0 <= i < e.len() ==> !req_known_key((#[trigger] e[i]).0),
    ensures
        req_extra(s + e) == e,
    decreases e.len(),
{
    if e.len() == 0 {
        assert(s + e =~= s);
        lemma_req_extra_known(s);
    } else {
        assert((s + e).drop_last() =~= s + e.drop_last());
        assert((s + e).last() == e.last());
        lemma_req_extra_split(s, e.drop_last());
        assert(req_extra(s + e) =~= e);
    }
}

/// Decoding a message undoes encoding it, for every well-formed message.
pub proof fn lemma_message_round_trip(m: MessageV)
    requires
        msg_wf(m),
    ensures
        dec_message(enc_message(m)) == Some(m),
{
    lemma_msg_keys();
    match m {
        MessageV::Developer { content, name } => {
            let head = seq![("role"@, JVal::Str("developer"@)), ("content"@, enc_content(content))];
            let tail = opt_pair("name"@, enc_opt_str(name));
            let o = head + tail;
            assert(o =~= seq![("role"@, JVal::Str("developer"@))] + (seq![
                ("content"@, enc_content(content)),
            ] + tail));
            lemma_lookup_cons(("role"@, JVal::Str("developer"@)), seq![
                ("content"@, enc_content(content)),
            ] + tail, "role"@);
            lemma_lookup_cons(("role"@, JVal::Str("developer"@)), seq![
                ("content"@, enc_content(content)),
            ] + tail, "content"@);
            lemma_lookup_cons(("role"@, JVal::Str("developer"@)), seq![
                ("content"@, enc_content(content)),
            ] + tail, "name"@);
            lemma_lookup_cons(("content"@, enc_content(content)), tail, "content"@);
            lemma_lookup_cons(("content"@, enc_content(content)), tail, "name"@);
            lemma_lookup_opt("name"@, enc_opt_str(name), "name"@);
            lemma_content_round_trip(content);
        },
        MessageV::System { content, name } => {
            let head = seq![("role"@, JVal::Str("system"@)), ("content"@, enc_content(content))];
            let tail = opt_pair("name"@, enc_opt_str(name));
            let o = head + tail;
            assert(o =~= seq![("role"@, JVal::Str("system"@))] + (seq![
                ("content"@, enc_content(content)),
            ] + tail));
            lemma_lookup_cons(("role"@, JVal::Str("system"@)), seq![
                ("content"@, enc_content(content)),
            ] + tail, "role"@);
            lemma_lookup_cons(("role"@, JVal::Str("system"@)), seq![
                ("content"@, enc_content(content)),
            ] + tail, "content"@);
            lemma_lookup_cons(("role"@, JVal::Str("system"@)), seq![
                ("content"@, enc_content(content)),
            ] + tail, "name"@);
            lemma_lookup_cons(("content"@, enc_content(content)), tail, "content"@);
            lemma_lookup_cons(("content"@, enc_content(content)), tail, "name"@);
            lemma_lookup_opt("name"@, enc_opt_str(name), "name"@);
            lemma_content_round_trip(content);
        },
        MessageV::User { content, name } => {
            let head = seq![("role"@, JVal::Str("user"@)), ("content"@, enc_content(content))];
            let tail = opt_pair("name"@, enc_opt_str(name));
            let o = head + tail;
            assert(o =~= seq![("role"@, JVal::Str("user"@))] + (seq![
                ("content"@, enc_content(content)),
            ] + tail));
            lemma_lookup_cons(("role"@, JVal::Str("user"@)), seq![
                ("content"@, enc_content(content)),
            ] + tail, "role"@);
            lemma_lookup_cons(("role"@, JVal::Str("user"@)), seq![
                ("content"@, enc_content(content)),
            ] + tail, "content"@);
            lemma_lookup_cons(("role"@, JVal::Str("user"@)), seq![
                ("content"@, enc_content(content)),
            ] + tail, "name"@);
            lemma_lookup_cons(("content"@, enc_content(content)), tail, "content"@);
            lemma_lookup_cons(("content"@, enc_content(content)), tail, "name"@);
            lemma_lookup_opt("name"@, enc_opt_str(name), "name"@);
            lemma_content_round_trip(content);
        },
        MessageV::Assistant { content, name, extra } => {
            let pc = opt_pair("content"@, enc_opt_content(content));
            let pn = opt_pair("name"@, enc_opt_str(name));
            let o = seq![("role"@, JVal::Str("assistant"@))] + pc + pn + extra;
            assert(o =~= seq![("role"@, JVal::Str("assistant"@))] + (pc + (pn + extra)));
            lemma_lookup_cons(("role"@, JVal::Str("assistant"@)), pc + (pn + extra), "role"@);
            lemma_lookup_cons(("role"@, JVal::Str("assistant"@)), pc + (pn + extra), "content"@);
            lemma_lookup_cons(("role"@, JVal::Str("assistant"@)), pc + (pn + extra), "name"@);
            lemma_lookup_add(pc, pn + extra, "content"@);
            lemma_lookup_add(pc, pn + extra, "name"@);
            lemma_lookup_opt("content"@, enc_opt_content(content), "content"@);
            lemma_lookup_opt("content"@, enc_opt_content(content), "name"@);
            lemma_lookup_add(pn, extra, "content"@);
            lemma_lookup_add(pn, extra, "name"@);
            lemma_lookup_opt("name"@, enc_opt_str(name), "content"@);
            lemma_lookup_opt("name"@, enc_opt_str(name), "name"@);
            assert(forall|i: int|
                0 <= i < extra.len() ==> (#[trigger] extra[i]).0 != "content"@ && extra[i].0
                    != "name"@) by {
                lemma_msg_keys();
            }
            crate::json::lemma_lookup_miss(extra, "content"@);
            crate::json::lemma_lookup_miss(extra, "name"@);
            match content {
                Some(c) => {
                    lemma_content_round_trip(c);
                    assert(enc_content(c) != JVal::Null);
                },
                None => {},
            }
            let prefix = seq![("role"@, JVal::Str("assistant"@))] + pc + pn;
            assert(o =~= prefix + extra);
            assert(forall|i: int| 0 <= i < prefix.len() ==> msg_known_key((#[trigger] prefix[i]).0));
            lemma_msg_extra_split(prefix, extra);
            assert(dec_message(enc_message(m)) == Some(m));
        },
        MessageV::Tool { content, tool_call } => {
            let p0 = ("role"@, JVal::Str("tool"@));
            let p1 = ("content"@, enc_content(content));
            let p2 = ("tool_call"@, JVal::Str(tool_call));
            let o = seq![p0, p1, p2];
            assert(o =~= seq![p0] + (seq![p1] + (seq![p2] + Seq::empty())));
            lemma_lookup_cons(p0, seq![p1] + (seq![p2] + Seq::empty()), "role"@);
            lemma_lookup_cons(p0, seq![p1] + (seq![p2] + Seq::empty()), "content"@);
            lemma_lookup_cons(p0, seq![p1] + (seq![p2] + Seq::empty()), "tool_call"@);
            lemma_lookup_cons(p1, seq![p2] + Seq::empty(), "content"@);
            lemma_lookup_cons(p1, seq![p2] + Seq::empty(), "tool_call"@);
            lemma_lookup_cons(p2, Seq::empty(), "tool_call"@);
            lemma_content_round_trip(content);
        },
        MessageV::Function { content, name } => {
            let p0 = ("role"@, JVal::Str("function"@));
            let p1 = ("content"@, enc_content(content));
            let p2 = ("name"@, JVal::Str(name));
            let o = seq![p0, p1, p2];
            assert(o =~= seq![p0] + (seq![p1] + (seq![p2] + Seq::empty())));
            lemma_lookup_cons(p0, seq![p1] + (seq![p2] + Seq::empty()), "role"@);
            lemma_lookup_cons(p0, seq![p1] + (seq![p2] + Seq::empty()), "content"@);
            lemma_lookup_cons(p0, seq![p1] + (seq![p2] + Seq::empty()), "name"@);
            lemma_lookup_cons(p1, seq![p2] + Seq::empty(), "content"@);
            lemma_lookup_cons(p1, seq![p2] + Seq::empty(), "name"@);
            lemma_lookup_cons(p2, Seq::empty(), "name"@);
            lemma_content_round_trip(content);
        },
    }
}


proof fn lemma_messages_round_trip(ms: Seq<MessageV>)
    requires
        forall|i: int| 0 <= i < ms.len() ==> msg_wf(#[trigger] ms[i]),
    ensures
        dec_messages(enc_messages(ms)) == Some(ms),
    decreases ms.len(),
{
    if ms.len() == 0 {
        assert(enc_messages(ms) =~= Seq::<JVal>::empty());
        assert(ms =~= Seq::<MessageV>::empty());
    } else {
        lemma_message_round_trip(ms[0]);
        lemma_messages_round_trip(ms.drop_first());
        assert(enc_messages(ms).drop_first() =~= enc_messages(ms.drop_first()));
        assert(enc_messages(ms)[0] == enc_message(ms[0]));
        assert(seq![ms[0]] + ms.drop_first() =~= ms);
    }
}

/// All the keys a request object owns are distinct from one another.
proof fn lemma_req_keys()
    ensures
        req_known_key("messages"@),
        req_known_key("model"@),
        req_known_key("max_tokens"@),
        req_known_key("max_completion_tokens"@),
        req_known_key("stream"@),
        req_known_key("user"@),
        "messages"@ != "model"@,
        "messages"@ != "max_tokens"@,
        "messages"@ != "max_completion_tokens"@,
        "messages"@ != "stream"@,
        "messages"@ != "user"@,
        "model"@ != "max_tokens"@,
        "model"@ != "max_completion_tokens"@,
        "model"@ != "stream"@,
        "model"@ != "user"@,
        "max_tokens"@ != "max_completion_tokens"@,
        "max_tokens"@ != "stream"@,
        "max_tokens"@ != "user"@,
        "max_completion_tokens"@ != "stream"@,
        "max_completion_tokens"@ != "user"@,
        "stream"@ != "user"@,
{
    reveal_strlit("messages");
    reveal_strlit("model");
    reveal_strlit("max_tokens");
    reveal_strlit("max_completion_tokens");
    reveal_strlit("stream");
    reveal_strlit("user");
    assert("messages"@.len() == 8);
    assert("model"@.len() == 5);
    assert("max_tokens"@.len() == 10);
    assert("max_completion_tokens"@.len() == 21);
    assert("stream"@.len() == 6);
    assert("user"@.len() == 4);
}

/// What looking a known key up in an encoded request yields.
proof fn lemma_req_lookup(r: RequestV, k: Seq<char>)
    requires
        forall|i: int| 0 <= i < r.extra.len() ==> !req_known_key((#[trigger] r.extra[i]).0),
        req_known_key(k),
    ensures
        lookup(enc_request(r)->Obj_0, k) == if k == "messages"@ {
            Some(JVal::Arr(enc_messages(r.messages)))
        } else if k == "model"@ {
            Some(JVal::Str(r.model))
        } else if k == "max_tokens"@ {
            enc_opt_int(r.max_tokens)
        } else if k == "max_completion_tokens"@ {
            enc_opt_int(r.max_completion_tokens)
        } else if k == "stream"@ {
            enc_opt_bool(r.stream)
        } else {
            enc_opt_str(r.user)
        },
{
    lemma_req_keys();
    let pm = ("messages"@, JVal::Arr(enc_messages(r.messages)));
    let pmod = ("model"@, JVal::Str(r.model));
    let p1 = opt_pair("max_tokens"@, enc_opt_int(r.max_tokens));
    let p2 = opt_pair("max_completion_tokens"@, enc_opt_int(r.max_completion_tokens));
    let p3 = opt_pair("stream"@, enc_opt_bool(r.stream));
    let p4 = opt_pair("user"@, enc_opt_str(r.user));
    let o = enc_request(r)->Obj_0;
    assert(o =~= seq![pm] + (seq![pmod] + (p1 + (p2 + (p3 + (p4 + r.extra))))));
    lemma_lookup_cons(pm, seq![pmod] + (p1 + (p2 + (p3 + (p4 + r.extra)))), k);
    lemma_lookup_cons(pmod, p1 + (p2 + (p3 + (p4 + r.extra))), k);
    lemma_lookup_add(p1, p2 + (p3 + (p4 + r.extra)), k);
    lemma_lookup_opt("max_tokens"@, enc_opt_int(r.max_tokens), k);
    lemma_lookup_add(p2, p3 + (p4 + r.extra), k);
    lemma_lookup_opt("max_completion_tokens"@, enc_opt_int(r.max_completion_tokens), k);
    lemma_lookup_add(p3, p4 + r.extra, k);
    lemma_lookup_opt("stream"@, enc_opt_bool(r.stream), k);
    lemma_lookup_add(p4, r.extra, k);
    lemma_lookup_opt("user"@, enc_opt_str(r.user), k);
    assert(forall|i: int| 0 <= i < r.extra.len() ==> (#[trigger] r.extra[i]).0 != k);
    crate::json::lemma_lookup_miss(r.extra, k);
}

/// Decoding a request undoes encoding it, for every well-formed request.
/// This is the round-trip law of the request side of the wire model.
pub proof fn lemma_request_round_trip(r: RequestV)
    requires
        request_wf(r),
    ensures
        dec_request(enc_request(r)) == Some(r),
{
    lemma_req_keys();
    lemma_req_lookup(r, "messages"@);
    lemma_req_lookup(r, "model"@);
    lemma_req_lookup(r, "max_tokens"@);
    lemma_req_lookup(r, "max_completion_tokens"@);
    lemma_req_lookup(r, "stream"@);
    lemma_req_lookup(r, "user"@);
    lemma_messages_round_trip(r.messages);
    let pm = ("messages"@, JVal::Arr(enc_messages(r.messages)));
    let pmod = ("model"@, JVal::Str(r.model));
    let p1 = opt_pair("max_tokens"@, enc_opt_int(r.max_tokens));
    let p2 = opt_pair("max_completion_tokens"@, enc_opt_int(r.max_completion_tokens));
    let p3 = opt_pair("stream"@, enc_opt_bool(r.stream));
    let p4 = opt_pair("user"@, enc_opt_str(r.user));
    let o = enc_request(r)->Obj_0;
    let prefix = seq![pm, pmod] + p1 + p2 + p3 + p4;
    assert(o =~= prefix + r.extra);
    assert(forall|i: int| 0 <= i < prefix.len() ==> req_known_key((#[trigger] prefix[i]).0));
    lemma_req_extra_split(prefix, r.extra);
    assert(dec_request(enc_request(r)) == Some(r));
}

/// All the keys a usage object owns are distinct from one another.
proof fn lemma_usage_keys()
    ensures
        "completion_tokens"@ != "prompt_tokens"@,
        "completion_tokens"@ != "total_tokens"@,
        "completion_tokens"@ != "completion_tokens_details"@,
        "completion_tokens"@ != "prompt_tokens_details"@,
        "prompt_tokens"@ != "total_tokens"@,
        "prompt_tokens"@ != "completion_tokens_details"@,
        "prompt_tokens"@ != "prompt_tokens_details"@,
        "total_tokens"@ != "completion_tokens_details"@,
        "total_tokens"@ != "prompt_tokens_details"@,
        "completion_tokens_details"@ != "prompt_tokens_details"@,
{
    reveal_strlit("completion_tokens");
    reveal_strlit("prompt_tokens");
    reveal_strlit("total_tokens");
    reveal_strlit("completion_tokens_details");
    reveal_strlit("prompt_tokens_details");
    assert("completion_tokens"@.len() == 17);
    assert("prompt_tokens"@.len() == 13);
    assert("total_tokens"@.len() == 12);
    assert("completion_tokens_details"@.len() == 25);
    assert("prompt_tokens_details"@.len() == 21);
}

/// Decoding a usage record undoes encoding it, for every well-formed one.
pub proof fn lemma_usage_round_trip(u: UsageV)
    requires
        usage_wf(u),
    ensures
        dec_usage(enc_usage(u)) == Some(u),
{
    lemma_usage_keys();
    let p0 = ("completion_tokens"@, JVal::Int(u.completion_tokens));
    let p1 = ("prompt_tokens"@, JVal::Int(u.prompt_tokens));
    let p2 = ("total_tokens"@, JVal::Int(u.total_tokens));
    let p3 = ("completion_tokens_details"@, u.completion_tokens_details);
    let p4 = ("prompt_tokens_details"@, u.prompt_tokens_details);
    let o = enc_usage(u)->Obj_0;
    assert(o =~= seq![p0] + (seq![p1] + (seq![p2] + (seq![p3] + (seq![p4] + Seq::empty())))));
    assert forall|k: Seq<char>| true implies #[trigger] lookup(o, k) == if k == p0.0 {
        Some(p0.1)
    } else if k == p1.0 {
        Some(p1.1)
    } else if k == p2.0 {
        Some(p2.1)
    } else if k == p3.0 {
        Some(p3.1)
    } else if k == p4.0 {
        Some(p4.1)
    } else {
        None
    } by {
        lemma_lookup_cons(p0, seq![p1] + (seq![p2] + (seq![p3] + (seq![p4] + Seq::empty()))), k);
        lemma_lookup_cons(p1, seq![p2] + (seq![p3] + (seq![p4] + Seq::empty())), k);
        lemma_lookup_cons(p2, seq![p3] + (seq![p4] + Seq::empty()), k);
        lemma_lookup_cons(p3, seq![p4] + Seq::empty(), k);
        lemma_lookup_cons(p4, Seq::empty(), k);
    }
}

/// All the keys a choice object owns are distinct from one another.
proof fn lemma_choice_keys()
    ensures
        "index"@ != "message"@,
        "index"@ != "finish_reason"@,
        "index"@ != "logprobs"@,
        "message"@ != "finish_reason"@,
        "message"@ != "logprobs"@,
        "finish_reason"@ != "logprobs"@,
{
    reveal_strlit("index");
    reveal_strlit("message");
    reveal_strlit("finish_reason");
    reveal_strlit("logprobs");
    assert("index"@.len() == 5);
    assert("message"@.len() == 7);
    assert("finish_reason"@.len() == 13);
    assert("logprobs"@.len() == 8);
}

/// Decoding a choice undoes encoding it, for every well-formed choice.
pub proof fn lemma_choice_round_trip(c: ChoiceV)
    requires
        choice_wf(c),
    ensures
        dec_choice(enc_choice(c)) == Some(c),
{
    lemma_choice_keys();
    lemma_message_round_trip(c.message);
    let p0 = ("index"@, JVal::Int(c.index));
    let p1 = ("message"@, enc_message(c.message));
    let p2 = ("finish_reason"@, JVal::Str(c.finish_reason));
    let p3 = (
        "logprobs"@,
        match c.logprobs {
            Some(v) => v,
            None => JVal::Null,
        },
    );
    let o = enc_choice(c)->Obj_0;
    assert(o =~= seq![p0] + (seq![p1] + (seq![p2] + (seq![p3] + Seq::empty()))));
    assert forall|k: Seq<char>| true implies #[trigger] lookup(o, k) == if k == p0.0 {
        Some(p0.1)
    } else if k == p1.0 {
        Some(p1.1)
    } else if k == p2.0 {
        Some(p2.1)
    } else if k == p3.0 {
        Some(p3.1)
    } else {
        None
    } by {
        lemma_lookup_cons(p0, seq![p1] + (seq![p2] + (seq![p3] + Seq::empty())), k);
        lemma_lookup_cons(p1, seq![p2] + (seq![p3] + Seq::empty()), k);
        lemma_lookup_cons(p2, seq![p3] + Seq::empty(), k);
        lemma_lookup_cons(p3, Seq::empty(), k);
    }
}

proof fn lemma_choices_round_trip(cs: Seq<ChoiceV>)
    requires
        forall|i: int| 0 <= i < cs.len() ==> choice_wf(#[trigger] cs[i]),
    ensures
        dec_choices(enc_choices(cs)) == Some(cs),
    decreases cs.len(),
{
    if cs.len() == 0 {
        assert(enc_choices(cs) =~= Seq::<JVal>::empty());
        assert(cs =~= Seq::<ChoiceV>::empty());
    } else {
        lemma_choice_round_trip(cs[0]);
        lemma_choices_round_trip(cs.drop_first());
        assert(enc_choices(cs).drop_first() =~= enc_choices(cs.drop_first()));
        assert(enc_choices(cs)[0] == enc_choice(cs[0]));
        assert(seq![cs[0]] + cs.drop_first() =~= cs);
    }
}

/// All the keys a response object owns are distinct from one another.
proof fn lemma_resp_keys()
    ensures
        "id"@ != "choices"@,
        "id"@ != "created"@,
        "id"@ != "model"@,
        "id"@ != "service_tier"@,
        "id"@ != "system_fingerprint"@,
        "id"@ != "object"@,
        "id"@ != "usage"@,
        "choices"@ != "created"@,
        "choices"@ != "model"@,
        "choices"@ != "service_tier"@,
        "choices"@ != "system_fingerprint"@,
        "choices"@ != "object"@,
        "choices"@ != "usage"@,
        "created"@ != "model"@,
        "created"@ != "service_tier"@,
        "created"@ != "system_fingerprint"@,
        "created"@ != "object"@,
        "created"@ != "usage"@,
        "model"@ != "service_tier"@,
        "model"@ != "system_fingerprint"@,
        "model"@ != "object"@,
        "model"@ != "usage"@,
        "service_tier"@ != "system_fingerprint"@,
        "service_tier"@ != "object"@,
        "service_tier"@ != "usage"@,
        "system_fingerprint"@ != "object"@,
        "system_fingerprint"@ != "usage"@,
        "object"@ != "usage"@,
{
    reveal_strlit("id");
    reveal_strlit("choices");
    reveal_strlit("created");
    reveal_strlit("model");
    reveal_strlit("service_tier");
    reveal_strlit("system_fingerprint");
    reveal_strlit("object");
    reveal_strlit("usage");
    assert("id"@.len() == 2);
    assert("choices"@.len() == 7);
    assert("created"@.len() == 7);
    assert("model"@.len() == 5);
    assert("service_tier"@.len() == 12);
    assert("system_fingerprint"@.len() == 18);
    assert("object"@.len() == 6);
    assert("usage"@.len() == 5);
    assert("choices"@[1] == 'h' && "created"@[1] == 'r');
    assert("model"@[0] == 'm' && "usage"@[0] == 'u');
}

/// Decoding a response undoes encoding it, for every well-formed response.
/// This is the round-trip law of the response side of the wire model.
pub proof fn lemma_response_round_trip(r: ResponseV)
    requires
        response_wf(r),
    ensures
        dec_response(enc_response(r)) == Some(r),
{
    lemma_resp_keys();
    lemma_choices_round_trip(r.choices);
    lemma_usage_round_trip(r.usage);
    let p0 = ("id"@, JVal::Str(r.id));
    let p1 = ("choices"@, JVal::Arr(enc_choices(r.choices)));
    let p2 = ("created"@, JVal::Int(r.created));
    let p3 = ("model"@, JVal::Str(r.model));
    let pt = opt_pair("service_tier"@, enc_opt_str(r.service_tier));
    let p4 = ("system_fingerprint"@, JVal::Str(r.system_fingerprint));
    let p5 = ("object"@, JVal::Str(r.object));
    let p6 = ("usage"@, enc_usage(r.usage));
    let o = enc_response(r)->Obj_0;
    assert(o =~= seq![p0] + (seq![p1] + (seq![p2] + (seq![p3] + (pt + (seq![p4] + (seq![p5] + (
    seq![p6] + Seq::empty()))))))));
    assert forall|k: Seq<char>| true implies #[trigger] lookup(o, k) == if k == p0.0 {
        Some(p0.1)
    } else if k == p1.0 {
        Some(p1.1)
    } else if k == p2.0 {
        Some(p2.1)
    } else if k == p3.0 {
        Some(p3.1)
    } else if k == "service_tier"@ {
        enc_opt_str(r.service_tier)
    } else if k == p4.0 {
        Some(p4.1)
    } else if k == p5.0 {
        Some(p5.1)
    } else if k == p6.0 {
        Some(p6.1)
    } else {
        None
    } by {
        lemma_lookup_cons(p0, seq![p1] + (seq![p2] + (seq![p3] + (pt + (seq![p4] + (seq![p5] + (
        seq![p6] + Seq::empty())))))), k);
        lemma_lookup_cons(p1, seq![p2] + (seq![p3] + (pt + (seq![p4] + (seq![p5] + (seq![p6]
            + Seq::empty()))))), k);
        lemma_lookup_cons(p2, seq![p3] + (pt + (seq![p4] + (seq![p5] + (seq![p6] + Seq::empty())))), k);
        lemma_lookup_cons(p3, pt + (seq![p4] + (seq![p5] + (seq![p6] + Seq::empty()))), k);
        lemma_lookup_add(pt, seq![p4] + (seq![p5] + (seq![p6] + Seq::empty())), k);
        lemma_lookup_opt("service_tier"@, enc_opt_str(r.service_tier), k);
        lemma_lookup_cons(p4, seq![p5] + (seq![p6] + Seq::empty()), k);
        lemma_lookup_cons(p5, seq![p6] + Seq::empty(), k);
        lemma_lookup_cons(p6, Seq::empty(), k);
    }
    assert(dec_response(enc_response(r)) == Some(r));
}

/// For each of the six role labels, the plain-text constructor yields a
/// message whose encoding carries the label under `role` and the given text
/// under `content`; any other label yields no message at all.
pub proof fn lemma_role_label_encoding(role: Seq<char>, text: Seq<char>)
    ensures
        (msg_of_role(role, text) is Some) <==> (role == "developer"@ || role == "system"@ || role
            == "user"@ || role == "assistant"@ || role == "tool"@ || role == "function"@),
        msg_of_role(role, text) matches Some(m) ==> (enc_message(m) matches JVal::Obj(o) && lookup(
            o,
            "role"@,
        ) == Some(JVal::Str(role)) && lookup(o, "content"@) == Some(JVal::Str(text))),
{
    lemma_msg_keys();
    if role == "user"@ || role == "system"@ || role == "developer"@ {
        let m = msg_of_role(role, text)->Some_0;
        let head = seq![("role"@, JVal::Str(role)), ("content"@, JVal::Str(text))];
        let tail = opt_pair("name"@, enc_opt_str(None));
        assert(enc_message(m)->Obj_0 =~= seq![("role"@, JVal::Str(role))] + (seq![
            ("content"@, JVal::Str(text)),
        ] + tail));
        lemma_lookup_cons(("role"@, JVal::Str(role)), seq![("content"@, JVal::Str(text))] + tail,
            "role"@);
        lemma_lookup_cons(("role"@, JVal::Str(role)), seq![("content"@, JVal::Str(text))] + tail,
            "content"@);
        lemma_lookup_cons(("content"@, JVal::Str(text)), tail, "content"@);
    } else if role == "assistant"@ {
        let m = msg_of_role(role, text)->Some_0;
        let pc = opt_pair("content"@, enc_opt_content(Some(ContentV::Text(text))));
        let pn = opt_pair("name"@, enc_opt_str(None));
        let e = Seq::<(Seq<char>, JVal)>::empty();
        assert(enc_message(m)->Obj_0 =~= seq![("role"@, JVal::Str("assistant"@))] + (pc + (pn
            + e)));
        lemma_lookup_cons(("role"@, JVal::Str("assistant"@)), pc + (pn + e), "role"@);
        lemma_lookup_cons(("role"@, JVal::Str("assistant"@)), pc + (pn + e), "content"@);
        lemma_lookup_add(pc, pn + e, "content"@);
        lemma_lookup_opt("content"@, enc_opt_content(Some(ContentV::Text(text))), "content"@);
    } else if role == "tool"@ {
        let m = msg_of_role(role, text)->Some_0;
        let p0 = ("role"@, JVal::Str("tool"@));
        let p1 = ("content"@, JVal::Str(text));
        let p2 = ("tool_call"@, JVal::Str(Seq::empty()));
        assert(enc_message(m)->Obj_0 =~= seq![p0] + (seq![p1] + (seq![p2] + Seq::empty())));
        lemma_lookup_cons(p0, seq![p1] + (seq![p2] + Seq::empty()), "role"@);
        lemma_lookup_cons(p0, seq![p1] + (seq![p2] + Seq::empty()), "content"@);
        lemma_lookup_cons(p1, seq![p2] + Seq::empty(), "content"@);
    } else if role == "function"@ {
        let m = msg_of_role(role, text)->Some_0;
        let p0 = ("role"@, JVal::Str("function"@));
        let p1 = ("content"@, JVal::Str(text));
        let p2 = ("name"@, JVal::Str(Seq::empty()));
        assert(enc_message(m)->Obj_0 =~= seq![p0] + (seq![p1] + (seq![p2] + Seq::empty())));
        lemma_lookup_cons(p0, seq![p1] + (seq![p2] + Seq::empty()), "role"@);
        lemma_lookup_cons(p0, seq![p1] + (seq![p2] + Seq::empty()), "content"@);
        lemma_lookup_cons(p1, seq![p2] + Seq::empty(), "content"@);
    }
}

/// A key an assistant message does not own is preserved, with its value,
/// through a decode–encode cycle: it reappears in the re-encoded object.
pub proof fn lemma_assistant_unknown_field_kept(j: JVal, m: MessageV, i: int)
    requires
        dec_message(j) == Some(m),
        m matches MessageV::Assistant { .. },
        0 <= i < j->Obj_0.len(),
        !msg_known_key(j->Obj_0[i].0),
    ensures
        enc_message(m)->Obj_0.contains(j->Obj_0[i]),
{
    let o = j->Obj_0;
    lemma_msg_extra_keeps(o, i);
    match m {
        MessageV::Assistant { content, name, extra } => {
            assert(extra == msg_extra(o));
            let w = choose|w: int| 0 <= w < extra.len() && extra[w] == o[i];
            let pc = opt_pair("content"@, enc_opt_content(content));
            let pn = opt_pair("name"@, enc_opt_str(name));
            let eo = enc_message(m)->Obj_0;
            let off = 1 + pc.len() + pn.len();
            assert(eo[off + w] == extra[w]);
            assert(eo.contains(o[i]));
        },
        _ => {},
    }
}


/// An extra top-level field survives into what request decoding strips.
proof fn lemma_req_extra_keeps(o: Seq<(Seq<char>, JVal)>, i: int)
    requires
        0 <= i < o.len(),
        !req_known_key(o[i].0),
    ensures
        req_extra(o).contains(o[i]),
    decreases o.len(),
{
    if i == o.len() - 1 {
        assert(req_extra(o).last() == o[i]);
    } else {
        lemma_req_extra_keeps(o.drop_last(), i);
        let r = req_extra(o.drop_last());
        let w = choose|w: int| 0 <= w < r.len() && r[w] == o.drop_last()[i];
        if req_known_key(o.last().0) {
            assert(req_extra(o)[w] == o[i]);
        } else {
            assert(req_extra(o) == r.push(o.last()));
            assert(req_extra(o)[w] == o[i]);
        }
    }
}

/// A top-level key a request does not own is preserved, with its value,
/// through a decode–encode cycle: it reappears in the re-encoded object.
pub proof fn lemma_request_unknown_field_kept(j: JVal, r: RequestV, i: int)
    requires
        dec_request(j) == Some(r),
        0 <= i < j->Obj_0.len(),
        !req_known_key(j->Obj_0[i].0),
    ensures
        enc_request(r)->Obj_0.contains(j->Obj_0[i]),
{
    let o = j->Obj_0;
    lemma_req_extra_keeps(o, i);
    assert(r.extra == req_extra(o));
    let w = choose|w: int| 0 <= w < r.extra.len() && r.extra[w] == o[i];
    let pm = ("messages"@, JVal::Arr(enc_messages(r.messages)));
    let pmod = ("model"@, JVal::Str(r.model));
    let p1 = opt_pair("max_tokens"@, enc_opt_int(r.max_tokens));
    let p2 = opt_pair("max_completion_tokens"@, enc_opt_int(r.max_completion_tokens));
    let p3 = opt_pair("stream"@, enc_opt_bool(r.stream));
    let p4 = opt_pair("user"@, enc_opt_str(r.user));
    let eo = enc_request(r)->Obj_0;
    let off = 2 + p1.len() + p2.len() + p3.len() + p4.len();
    assert(eo[off + w] == r.extra[w]);
    assert(eo.contains(o[i]));
}


/// Where a key is absent, no field carries it.
proof fn lemma_lookup_none_keys(o: Seq<(Seq<char>, JVal)>, k: Seq<char>)
    requires
        lookup(o, k) is None,
    ensures
        forall|i: int| 0 <= i < o.len() ==> (#[trigger] o[i]).0 != k,
    decreases o.len(),
{
    if o.len() > 0 {
        lemma_lookup_none_keys(o.drop_first(), k);
        assert(forall|i: int|
            1 <= i < o.len() ==> #[trigger] o[i] == o.drop_first()[i - 1]);
    }
}

/// Every field the request strip keeps stood in the original object.
proof fn lemma_req_extra_sub(o: Seq<(Seq<char>, JVal)>, i: int)
    requires
        0 <= i < req_extra(o).len(),
    ensures
        exists|w: int| 0 <= w < o.len() && o[w] == req_extra(o)[i],
    decreases o.len(),
{
    let r = req_extra(o.drop_last());
    if req_known_key(o.last().0) {
        lemma_req_extra_sub(o.drop_last(), i);
        let w = choose|w: int| 0 <= w < o.drop_last().len() && o.drop_last()[w] == r[i];
        assert(o[w] == req_extra(o)[i]);
    } else {
        if i < r.len() {
            lemma_req_extra_sub(o.drop_last(), i);
            let w = choose|w: int| 0 <= w < o.drop_last().len() && o.drop_last()[w] == r[i];
            assert(o[w] == req_extra(o)[i]);
        } else {
            assert(o[o.len() - 1] == req_extra(o)[i]);
        }
    }
}

/// The keys the request strip keeps are exactly unknown ones.
proof fn lemma_req_extra_keys(o: Seq<(Seq<char>, JVal)>)
    ensures
        forall|i: int| 0 <= i < req_extra(o).len() ==> !req_known_key(
            (#[trigger] req_extra(o)[i]).0,
        ),
    decreases o.len(),
{
    if o.len() > 0 {
        lemma_req_extra_keys(o.drop_last());
        let r = req_extra(o.drop_last());
        if req_known_key(o.last().0) {
            assert(req_extra(o) == r);
        } else {
            assert(req_extra(o) == r.push(o.last()));
            assert(forall|i: int|
                0 <= i < r.len() ==> #[trigger] req_extra(o)[i] == r[i]);
            assert(req_extra(o)[r.len() as int] == o.last());
        }
    }
}

/// What looking an unknown key up in an encoded request yields: exactly the
/// lookup in its extra fields.
proof fn lemma_req_lookup_unknown(r: RequestV, k: Seq<char>)
    requires
        !req_known_key(k),
    ensures
        lookup(enc_request(r)->Obj_0, k) == lookup(r.extra, k),
{
    lemma_req_keys();
    let pm = ("messages"@, JVal::Arr(enc_messages(r.messages)));
    let pmod = ("model"@, JVal::Str(r.model));
    let p1 = opt_pair("max_tokens"@, enc_opt_int(r.max_tokens));
    let p2 = opt_pair("max_completion_tokens"@, enc_opt_int(r.max_completion_tokens));
    let p3 = opt_pair("stream"@, enc_opt_bool(r.stream));
    let p4 = opt_pair("user"@, enc_opt_str(r.user));
    let o = enc_request(r)->Obj_0;
    assert(o =~= seq![pm] + (seq![pmod] + (p1 + (p2 + (p3 + (p4 + r.extra))))));
    lemma_lookup_cons(pm, seq![pmod] + (p1 + (p2 + (p3 + (p4 + r.extra)))), k);
    lemma_lookup_cons(pmod, p1 + (p2 + (p3 + (p4 + r.extra))), k);
    lemma_lookup_add(p1, p2 + (p3 + (p4 + r.extra)), k);
    lemma_lookup_opt("max_tokens"@, enc_opt_int(r.max_tokens), k);
    lemma_lookup_add(p2, p3 + (p4 + r.extra), k);
    lemma_lookup_opt("max_completion_tokens"@, enc_opt_int(r.max_completion_tokens), k);
    lemma_lookup_add(p3, p4 + r.extra, k);
    lemma_lookup_opt("stream"@, enc_opt_bool(r.stream), k);
    lemma_lookup_add(p4, r.extra, k);
    lemma_lookup_opt("user"@, enc_opt_str(r.user), k);
}

/// Re-encoding a decoded request fabricates no field and rewrites no
/// parameter: every key it emits stood in the original object; the unknown
/// keys answer exactly as they did there; and where it emits a generation
/// parameter, the original object held that very value.
pub proof fn lemma_request_reencode_faithful(j: JVal, r: RequestV, k: Seq<char>)
    requires
        dec_request(j) == Some(r),
    ensures
        lookup(enc_request(r)->Obj_0, k) is Some ==> lookup(j->Obj_0, k) is Some,
        !req_known_key(k) ==> lookup(enc_request(r)->Obj_0, k) == lookup(j->Obj_0, k),
        lookup(enc_request(r)->Obj_0, "model"@) == lookup(j->Obj_0, "model"@),
        k == "max_tokens"@ || k == "max_completion_tokens"@ || k == "stream"@ || k == "user"@
            ==> (lookup(enc_request(r)->Obj_0, k) matches Some(v) ==> lookup(j->Obj_0, k) == Some(
            v,
        )),
{
    lemma_req_keys();
    let o = j->Obj_0;
    assert(r.extra == req_extra(o));
    lemma_req_extra_keys(o);
    if req_known_key(k) {
        lemma_req_lookup(r, k);
    } else {
        lemma_req_lookup_unknown(r, k);
        match lookup(o, k) {
            None => {
                lemma_lookup_none_keys(o, k);
                assert(forall|i: int|
                    0 <= i < r.extra.len() ==> (#[trigger] r.extra[i]).0 != k) by {
                    assert forall|i: int| 0 <= i < r.extra.len() implies (#[trigger] r.extra[i]).0
                        != k by {
                        lemma_req_extra_sub(o, i);
                    }
                }
                crate::json::lemma_lookup_miss(r.extra, k);
            },
            Some(v) => {
                lemma_strip_lookup_same(o, k);
            },
        }
    }
    lemma_req_lookup(r, "model"@);
}

/// Stripping known fields moves no unknown key: the first occurrence, and so
/// the lookup, is the same before and after.
proof fn lemma_strip_lookup_same(o: Seq<(Seq<char>, JVal)>, k: Seq<char>)
    requires
        !req_known_key(k),
    ensures
        lookup(req_extra(o), k) == lookup(o, k),
    decreases o.len(),
{
    if o.len() == 0 {
    } else {
        lemma_strip_front(o);
        lemma_strip_lookup_same(o.drop_first(), k);
        if req_known_key(o[0].0) {
            assert(req_extra(o) =~= req_extra(o.drop_first()));
        } else {
            assert(req_extra(o) =~= seq![o[0]] + req_extra(o.drop_first()));
            lemma_lookup_cons(o[0], req_extra(o.drop_first()), k);
        }
    }
}

/// The request strip, unfolded from the front.
proof fn lemma_strip_front(o: Seq<(Seq<char>, JVal)>)
    requires
        o.len() > 0,
    ensures
        req_extra(o) == if req_known_key(o[0].0) {
            req_extra(o.drop_first())
        } else {
            seq![o[0]] + req_extra(o.drop_first())
        },
    decreases o.len(),
{
    if o.len() == 1 {
        assert(o.drop_last() =~= Seq::<(Seq<char>, JVal)>::empty());
        assert(o.drop_first() =~= Seq::<(Seq<char>, JVal)>::empty());
        assert(o.last() == o[0]);
        if !req_known_key(o[0].0) {
            assert(req_extra(o) =~= seq![o[0]] + req_extra(o.drop_first()));
        }
    } else {
        lemma_strip_front(o.drop_last());
        assert(o.drop_last()[0] == o[0]);
        assert(o.drop_last().drop_first() =~= o.drop_first().drop_last());
        assert(o.drop_first().last() == o.last());
        if req_known_key(o[0].0) {
            assert(req_extra(o) == if req_known_key(o.last().0) {
                req_extra(o.drop_last())
            } else {
                req_extra(o.drop_last()).push(o.last())
            });
        } else {
            if req_known_key(o.last().0) {
                assert(req_extra(o) == req_extra(o.drop_last()));
                assert(req_extra(o.drop_last()) == seq![o[0]] + req_extra(
                    o.drop_last().drop_first(),
                ));
                assert(req_extra(o.drop_first()) == req_extra(o.drop_first().drop_last()));
                assert(req_extra(o) =~= seq![o[0]] + req_extra(o.drop_first()));
            } else {
                assert(req_extra(o) == req_extra(o.drop_last()).push(o.last()));
                assert(req_extra(o.drop_last()) == seq![o[0]] + req_extra(
                    o.drop_last().drop_first(),
                ));
                assert(req_extra(o.drop_first()) == req_extra(
                    o.drop_first().drop_last(),
                ).push(o.drop_first().last()));
                assert(req_extra(o) =~= seq![o[0]] + req_extra(o.drop_first()));
            }
        }
    }
}

} // verus!