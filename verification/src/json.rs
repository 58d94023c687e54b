//! A JSON tree of the library's own, with a mathematical model.
//!
//! `Json` is the executable tree; `JVal` is its spec-level counterpart, with
//! strings as `Seq<char>` and objects as ordered sequences of key/value pairs.
//! The protocol's own numeric fields — token counts, indices, timestamps —
//! are signed 64-bit integers; any other number is carried verbatim as its
//! decimal lexeme.

use vstd::prelude::*;

verus! {

broadcast use vstd::std_specs::vec::group_vec_axioms;

/// Spec-level JSON value. Object fields keep their order; two objects that
/// differ only in field order are distinct trees denoting the same mapping.
/// `Num` is a number outside the signed 64-bit integers, kept as its decimal
/// lexeme.
#[verifier::ext_equal]
pub enum JVal {
    Null,
    Bool(bool),
    Int(int),
    Num(Seq<char>),
    Str(Seq<char>),
    Arr(Seq<JVal>),
    Obj(Seq<(Seq<char>, JVal)>),
}

/// Executable JSON tree. The schema's own numeric fields are signed 64-bit
/// integers; any other number — a float, an integer above that range — is
/// held verbatim in `Num` as the decimal lexeme the parse produced, so that
/// pass-through data loses nothing.
#[derive(Debug, PartialEq)]
pub enum Json {
    Null,
    Bool(bool),
    Int(i64),
    Num(String),
    Str(String),
    Arr(Vec<Json>),
    Obj(Vec<(String, Json)>),
}

/// The spec value an executable tree denotes.
pub open spec fn json_view(j: Json) -> JVal
    decreases j,
{
    match j {
        Json::Null => JVal::Null,
        Json::Bool(b) => JVal::Bool(b),
        Json::Int(i) => JVal::Int(i as int),
        Json::Num(s) => JVal::Num(s@),
        Json::Str(s) => JVal::Str(s@),
        Json::Arr(v) => JVal::Arr(
            Seq::new(
                v@.len(),
                |i: int|
                    if 0 <= i < v@.len() {
                        json_view(v@[i])
                    } else {
                        JVal::Null
                    },
            ),
        ),
        Json::Obj(v) => JVal::Obj(
            Seq::new(
                v@.len(),
                |i: int|
                    if 0 <= i < v@.len() {
                        (v@[i].0@, json_view(v@[i].1))
                    } else {
                        (Seq::empty(), JVal::Null)
                    },
            ),
        ),
    }
}

impl View for Json {
    type V = JVal;

    open spec fn view(&self) -> JVal {
        json_view(*self)
    }
}

/// The spec pairs a vector of object fields denotes.
pub open spec fn pairs_view(v: Seq<(String, Json)>) -> Seq<(Seq<char>, JVal)> {
    Seq::new(v.len(), |i: int| (v[i].0@, json_view(v[i].1)))
}

/// The spec elements a vector of array elements denotes.
pub open spec fn elems_view(v: Seq<Json>) -> Seq<JVal> {
    Seq::new(v.len(), |i: int| json_view(v[i]))
}

pub broadcast proof fn lemma_obj_view(v: Vec<(String, Json)>)
    ensures
        #[trigger] json_view(Json::Obj(v)) == JVal::Obj(pairs_view(v@)),
{
    assert(json_view(Json::Obj(v))->Obj_0 =~= pairs_view(v@));
}

pub broadcast proof fn lemma_arr_view(v: Vec<Json>)
    ensures
        #[trigger] json_view(Json::Arr(v)) == JVal::Arr(elems_view(v@)),
{
    assert(json_view(Json::Arr(v))->Arr_0 =~= elems_view(v@));
}

/// The value under the first occurrence of a key in an object's fields.
pub open spec fn lookup(o: Seq<(Seq<char>, JVal)>, k: Seq<char>) -> Option<JVal>
    decreases o.len(),
{
    if o.len() == 0 {
        None
    } else if o[0].0 == k {
        Some(o[0].1)
    } else {
        lookup(o.drop_first(), k)
    }
}

pub proof fn lemma_lookup_hit(o: Seq<(Seq<char>, JVal)>, k: Seq<char>, i: int)
    requires
        0 <= i < o.len(),
        o[i].0 == k,
        forall|j: int| 0 <= j < i ==> (#[trigger] o[j]).0 != k,
    ensures
        lookup(o, k) == Some(o[i].1),
    decreases i,
{
    if i == 0 {
    } else {
        assert(o.drop_first()[i - 1] == o[i]);
        assert(forall|j: int| 0 <= j < i - 1 ==> (#[trigger] o.drop_first()[j]).0 != k) by {
            assert(forall|j: int|
                0 <= j < i - 1 ==> #[trigger] o.drop_first()[j] == o[j + 1]);
        }
        lemma_lookup_hit(o.drop_first(), k, i - 1);
    }
}

pub proof fn lemma_lookup_miss(o: Seq<(Seq<char>, JVal)>, k: Seq<char>)
    requires
        forall|j: int| 0 <= j < o.len() ==> (#[trigger] o[j]).0 != k,
    ensures
        lookup(o, k) is None,
    decreases o.len(),
{
    if o.len() > 0 {
        assert(forall|j: int|
            0 <= j < o.len() - 1 ==> #[trigger] o.drop_first()[j] == o[j + 1]);
        lemma_lookup_miss(o.drop_first(), k);
    }
}

/// How `lookup` walks a concatenation: the left part is searched first.
pub proof fn lemma_lookup_add(o1: Seq<(Seq<char>, JVal)>, o2: Seq<(Seq<char>, JVal)>, k: Seq<char>)
    ensures
        lookup(o1 + o2, k) == if lookup(o1, k) is Some {
            lookup(o1, k)
        } else {
            lookup(o2, k)
        },
    decreases o1.len(),
{
    if o1.len() == 0 {
        assert(o1 + o2 =~= o2);
    } else {
        assert((o1 + o2).drop_first() =~= o1.drop_first() + o2);
        lemma_lookup_add(o1.drop_first(), o2, k);
    }
}

impl Json {
    /// A structurally equal copy of the tree.
    #[verifier::loop_isolation(false)]
    pub fn dup(&self) -> (r: Json)
        ensures
            r@ == self@,
        decreases self,
    {
        match self {
            Json::Null => Json::Null,
            Json::Bool(b) => Json::Bool(*b),
            Json::Int(i) => Json::Int(*i),
            Json::Num(s) => Json::Num(s.clone()),
            Json::Str(s) => Json::Str(s.clone()),
            Json::Arr(v) => {
                let mut out: Vec<Json> = Vec::new();
                let mut i: usize = 0;
                while i < v.len()
                    invariant
                        i <= v.len(),
                        out@.len() == i as int,
                        forall|j: int| 0 <= j < i ==> json_view(#[trigger] out@[j]) == json_view(v@[j]),
                    decreases v.len() - i,
                {
                    let e = v[i].dup();
                    out.push(e);
                    i = i + 1;
                }
                proof {
                    assert(json_view(Json::Arr(out))->Arr_0 =~= json_view(*self)->Arr_0);
                }
                Json::Arr(out)
            },
            Json::Obj(v) => {
                let mut out: Vec<(String, Json)> = Vec::new();
                let mut i: usize = 0;
                while i < v.len()
                    invariant
                        i <= v.len(),
                        out@.len() == i as int,
                        forall|j: int|
                            0 <= j < i ==> (#[trigger] out@[j]).0@ == v@[j].0@ && json_view(
                                out@[j].1,
                            ) == json_view(v@[j].1),
                    decreases v.len() - i,
                {
                    let k = v[i].0.clone();
                    let e = v[i].1.dup();
                    out.push((k, e));
                    i = i + 1;
                }
                proof {
                    assert(json_view(Json::Obj(out))->Obj_0 =~= json_view(*self)->Obj_0);
                }
                Json::Obj(out)
            },
        }
    }

    /// The value under the first occurrence of a key, if the tree is an
    /// object that carries the key.
    #[verifier::loop_isolation(false)]
    pub fn get<'a>(&'a self, k: &str) -> (r: Option<&'a Json>)
        ensures
            match r {
                Some(x) => self@ matches JVal::Obj(o) && lookup(o, k@) == Some(x@),
                None => !(self@ matches JVal::Obj(o) && lookup(o, k@) is Some),
            },
    {
        match self {
            Json::Obj(v) => {
                let key = k.to_owned();
                let mut i: usize = 0;
                while i < v.len()
                    invariant
                        i <= v.len(),
                        key@ == k@,
                        forall|j: int| 0 <= j < i ==> (#[trigger] v@[j]).0@ != k@,
                    decreases v.len() - i,
                {
                    if v[i].0 == key {
                        proof {
                            assert(*self == Json::Obj(*v));
                            lemma_obj_view(*v);
                            assert(self@ == JVal::Obj(pairs_view(v@)));
                            assert(pairs_view(v@)[i as int].0 == k@);
                            lemma_lookup_hit(pairs_view(v@), k@, i as int);
                            assert(pairs_view(v@)[i as int].1 == json_view(v@[i as int].1));
                        }
                        return Some(&v[i].1);
                    }
                    i = i + 1;
                }
                proof {
                    lemma_obj_view(*v);
                    lemma_lookup_miss(pairs_view(v@), k@);
                }
                None
            },
            _ => None,
        }
    }
}

} // verus!
