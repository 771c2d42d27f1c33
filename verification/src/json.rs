use vstd::prelude::*;

verus! {

/// Mathematical model of a JSON value: objects are ordered key/value
/// sequences, numbers are either 64-bit signed integers or kept as their
/// literal text.
#[verifier::ext_equal]
pub enum JsonV {
    Null,
    Bool(bool),
    Int(i64),
    Num(Seq<char>),
    Str(Seq<char>),
    Arr(Seq<JsonV>),
    Obj(Seq<(Seq<char>, JsonV)>),
}

/// A JSON value. Object member order is preserved so that a payload can be
/// re-emitted exactly as it was read. A number that fits in `i64` is held as
/// `Int`; any other numeric literal is carried verbatim as `Num`.
pub enum Json {
    Null,
    Bool(bool),
    Int(i64),
    Num(String),
    Str(String),
    Arr(Vec<Json>),
    Obj(Vec<(String, Json)>),
}

pub open spec fn json_view(j: Json) -> JsonV
    decreases j,
{
    match j {
        Json::Null => JsonV::Null,
        Json::Bool(b) => JsonV::Bool(b),
        Json::Int(n) => JsonV::Int(n),
        Json::Num(s) => JsonV::Num(s@),
        Json::Str(s) => JsonV::Str(s@),
        Json::Arr(v) => JsonV::Arr(jsons_view(v@)),
        Json::Obj(v) => JsonV::Obj(pairs_view(v@)),
    }
}

pub open spec fn jsons_view(s: Seq<Json>) -> Seq<JsonV>
    decreases s,
{
    Seq::new(
        s.len(),
        |i: int| if 0 <= i < s.len() {
            json_view(s[i])
        } else {
            JsonV::Null
        },
    )
}

pub open spec fn pairs_view(s: Seq<(String, Json)>) -> Seq<(Seq<char>, JsonV)>
    decreases s,
{
    Seq::new(
        s.len(),
        |i: int| if 0 <= i < s.len() {
            (s[i].0@, json_view(s[i].1))
        } else {
            (Seq::<char>::empty(), JsonV::Null)
        },
    )
}

impl vstd::view::DeepView for Json {
    type V = JsonV;

    open spec fn deep_view(&self) -> JsonV {
        json_view(*self)
    }
}

impl Clone for Json {
    /// A deep copy; the copy has the same mathematical value.
    #[verifier::loop_isolation(false)]
    fn clone(&self) -> (res: Json)
        ensures
            json_view(res) == json_view(*self),
        decreases *self,
    {
        match self {
            Json::Null => Json::Null,
            Json::Bool(b) => Json::Bool(*b),
            Json::Int(n) => Json::Int(*n),
            Json::Num(s) => Json::Num(s.clone()),
            Json::Str(s) => Json::Str(s.clone()),
            Json::Arr(v) => {
                let mut out: Vec<Json> = Vec::new();
                let mut i: usize = 0;
                while i < v.len()
                    invariant
                        i <= v.len(),
                        out@.len() == i as int,
                        forall|k: int|
                            0 <= k < i ==> json_view(#[trigger] out@[k]) == json_view(v@[k]),
                    decreases v.len() - i,
                {
                    proof {
                        assert(decreases_to!(*self => self->Arr_0));
                        assert(decreases_to!(self->Arr_0 => v@));
                        assert(decreases_to!(v@ => v@[i as int]));
                    }
                    let c = v[i].clone();
                    out.push(c);
                    i = i + 1;
                }
                let res = Json::Arr(out);
                proof {
                    assert(jsons_view(res->Arr_0@) =~= jsons_view(v@));
                }
                res
            },
            Json::Obj(v) => {
                let mut out: Vec<(String, Json)> = Vec::new();
                let mut i: usize = 0;
                while i < v.len()
                    invariant
                        i <= v.len(),
                        out@.len() == i as int,
                        forall|k: int|
                            0 <= k < i ==> json_view((#[trigger] out@[k]).1) == json_view(v@[k].1)
                                && out@[k].0@ == v@[k].0@,
                    decreases v.len() - i,
                {
                    proof {
                        assert(decreases_to!(*self => self->Obj_0));
                        assert(decreases_to!(self->Obj_0 => v@));
                        assert(decreases_to!(v@ => v@[i as int]));
                        assert(decreases_to!(v@[i as int] => v@[i as int].1));
                    }
                    let key = v[i].0.clone();
                    let val = v[i].1.clone();
                    out.push((key, val));
                    i = i + 1;
                }
                let res = Json::Obj(out);
                proof {
                    assert(pairs_view(res->Obj_0@) =~= pairs_view(v@));
                }
                res
            },
        }
    }
}

} // verus!
