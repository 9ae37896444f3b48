//! In-memory JSON documents and their mathematical model.
use vstd::prelude::*;

verus! {

broadcast use vstd::std_specs::vec::group_vec_axioms, vstd::seq::group_seq_axioms;

/// Mathematical model of a JSON document: strings are sequences of
/// characters, arrays and objects are sequences of models.  An object is
/// kept as an ordered sequence of pairs; a lookup reads the first pair
/// bound to a key.
pub enum JVal {
    Null,
    Bool(bool),
    Int(int),
    Str(Seq<char>),
    Arr(Seq<JVal>),
    Obj(Seq<(Seq<char>, JVal)>),
}

/// An in-memory JSON document.  Decoding and encoding operate on values of
/// this type; no reading or writing of text is done here.
#[derive(Debug, PartialEq, Eq)]
pub enum Json {
    Null,
    Bool(bool),
    Int(i64),
    Str(String),
    Arr(Vec<Json>),
    Obj(Vec<(String, Json)>),
}

impl Json {
    pub open spec fn jval(self) -> JVal
        decreases self,
    {
        match self {
            Json::Null => JVal::Null,
            Json::Bool(b) => JVal::Bool(b),
            Json::Int(i) => JVal::Int(i as int),
            Json::Str(s) => JVal::Str(s@),
            Json::Arr(items) => JVal::Arr(
                Seq::new(
                    items@.len(),
                    |i: int|
                        if 0 <= i < items@.len() {
                            items@[i].jval()
                        } else {
                            JVal::Null
                        },
                ),
            ),
            Json::Obj(pairs) => JVal::Obj(
                Seq::new(
                    pairs@.len(),
                    |i: int|
                        if 0 <= i < pairs@.len() {
                            (pairs@[i].0@, pairs@[i].1.jval())
                        } else {
                            (Seq::empty(), JVal::Null)
                        },
                ),
            ),
        }
    }
}

impl View for Json {
    type V = JVal;

    open spec fn view(&self) -> JVal {
        self.jval()
    }
}

impl DeepView for Json {
    type V = JVal;

    open spec fn deep_view(&self) -> JVal {
        self.jval()
    }
}

/// Model of an object's pair list, as seen through the view of each pair.
pub open spec fn pairs_view(pairs: Seq<(String, Json)>) -> Seq<(Seq<char>, JVal)> {
    Seq::new(pairs.len(), |i: int| (pairs[i].0@, pairs[i].1@))
}

pub proof fn lemma_obj_view(pairs: Vec<(String, Json)>)
    ensures
        Json::Obj(pairs)@ == JVal::Obj(pairs_view(pairs@)),
{
    assert(Json::Obj(pairs)@->Obj_0 =~= pairs_view(pairs@));
}

pub proof fn lemma_arr_view(items: Vec<Json>)
    ensures
        Json::Arr(items)@ == JVal::Arr(Seq::new(items@.len(), |i: int| items@[i]@)),
{
    assert(Json::Arr(items)@->Arr_0 =~= Seq::new(items@.len(), |i: int| items@[i]@));
}

/// First value bound to `key` in an object's pair sequence, if any.
pub open spec fn obj_lookup(pairs: Seq<(Seq<char>, JVal)>, key: Seq<char>) -> Option<JVal>
    decreases pairs.len(),
{
    if pairs.len() == 0 {
        None
    } else if pairs[0].0 == key {
        Some(pairs[0].1)
    } else {
        obj_lookup(pairs.skip(1), key)
    }
}

/// Binding `key` to `val` in an object: the first pair already bound to
/// `key` is replaced in place; with no such pair, a new pair is appended.
pub open spec fn obj_set(pairs: Seq<(Seq<char>, JVal)>, key: Seq<char>, val: JVal) -> Seq<
    (Seq<char>, JVal),
>
    decreases pairs.len(),
{
    if pairs.len() == 0 {
        seq![(key, val)]
    } else if pairs[0].0 == key {
        seq![(key, val)] + pairs.skip(1)
    } else {
        seq![pairs[0]] + obj_set(pairs.skip(1), key, val)
    }
}

pub proof fn lemma_obj_lookup_at(pairs: Seq<(Seq<char>, JVal)>, key: Seq<char>, i: int)
    requires
        0 <= i < pairs.len(),
        pairs[i].0 == key,
        forall|j: int| 0 <= j < i ==> pairs[j].0 != key,
    ensures
        obj_lookup(pairs, key) == Some(pairs[i].1),
    decreases i,
{
    if i > 0 {
        lemma_obj_lookup_at(pairs.skip(1), key, i - 1);
    }
}

pub proof fn lemma_obj_lookup_none(pairs: Seq<(Seq<char>, JVal)>, key: Seq<char>)
    requires
        forall|j: int| 0 <= j < pairs.len() ==> pairs[j].0 != key,
    ensures
        obj_lookup(pairs, key) is None,
    decreases pairs.len(),
{
    if pairs.len() > 0 {
        lemma_obj_lookup_none(pairs.skip(1), key);
    }
}

pub proof fn lemma_obj_set_replaces(pairs: Seq<(Seq<char>, JVal)>, key: Seq<char>, val: JVal, i: int)
    requires
        0 <= i < pairs.len(),
        pairs[i].0 == key,
        forall|j: int| 0 <= j < i ==> pairs[j].0 != key,
    ensures
        obj_set(pairs, key, val) =~= pairs.update(i, (key, val)),
    decreases i,
{
    if i > 0 {
        lemma_obj_set_replaces(pairs.skip(1), key, val, i - 1);
    }
}

pub proof fn lemma_obj_set_appends(pairs: Seq<(Seq<char>, JVal)>, key: Seq<char>, val: JVal)
    requires
        forall|j: int| 0 <= j < pairs.len() ==> pairs[j].0 != key,
    ensures
        obj_set(pairs, key, val) =~= pairs.push((key, val)),
    decreases pairs.len(),
{
    if pairs.len() > 0 {
        lemma_obj_set_appends(pairs.skip(1), key, val);
    }
}

/// After binding `key`, a lookup of `key` reads the bound value.
pub proof fn lemma_obj_lookup_after_set(pairs: Seq<(Seq<char>, JVal)>, key: Seq<char>, val: JVal)
    ensures
        obj_lookup(obj_set(pairs, key, val), key) == Some(val),
    decreases pairs.len(),
{
    if pairs.len() == 0 {
    } else if pairs[0].0 == key {
    } else {
        lemma_obj_lookup_after_set(pairs.skip(1), key, val);
        assert((seq![pairs[0]] + obj_set(pairs.skip(1), key, val)).skip(1) =~= obj_set(
            pairs.skip(1),
            key,
            val,
        ));
    }
}

impl Clone for Json {
    #[verifier::loop_isolation(false)]
    fn clone(&self) -> (r: Self)
        ensures
            r@ == self@,
        decreases self,
    {
        match self {
            Json::Null => Json::Null,
            Json::Bool(b) => Json::Bool(*b),
            Json::Int(i) => Json::Int(*i),
            Json::Str(s) => Json::Str(s.clone()),
            Json::Arr(items) => {
                let mut out: Vec<Json> = Vec::new();
                let mut k: usize = 0;
                while k < items.len()
                    invariant
                        k <= items.len(),
                        out@.len() == k as int,
                        forall|j: int| 0 <= j < k as int ==> out@[j]@ == items@[j]@,
                    decreases items.len() - k,
                {
                    proof {
                        assert(*self == Json::Arr(*items));
                        assert(decreases_to!(Json::Arr(*items) => *items));
                        assert(decreases_to!(*items => items@));
                        assert(decreases_to!(items@ => items@[k as int]));
                    }
                    out.push(items[k].clone());
                    k += 1;
                }
                proof {
                    lemma_arr_view(out);
                    lemma_arr_view(*items);
                    assert(Seq::new(out@.len(), |i: int| out@[i]@) =~= Seq::new(
                        items@.len(),
                        |i: int| items@[i]@,
                    ));
                }
                Json::Arr(out)
            },
            Json::Obj(pairs) => {
                let mut out: Vec<(String, Json)> = Vec::new();
                let mut k: usize = 0;
                while k < pairs.len()
                    invariant
                        k <= pairs.len(),
                        out@.len() == k as int,
                        forall|j: int| 0 <= j < k as int ==> out@[j].0@ == pairs@[j].0@
                            && out@[j].1@ == pairs@[j].1@,
                    decreases pairs.len() - k,
                {
                    proof {
                        assert(*self == Json::Obj(*pairs));
                        assert(decreases_to!(Json::Obj(*pairs) => *pairs));
                        assert(decreases_to!(*pairs => pairs@));
                        assert(decreases_to!(pairs@ => pairs@[k as int]));
                        assert(decreases_to!(pairs@[k as int] => pairs@[k as int].1));
                    }
                    let key = pairs[k].0.clone();
                    let val = pairs[k].1.clone();
                    out.push((key, val));
                    k += 1;
                }
                proof {
                    lemma_obj_view(out);
                    lemma_obj_view(*pairs);
                    assert(pairs_view(out@) =~= pairs_view(pairs@));
                }
                Json::Obj(out)
            },
        }
    }
}

/// Reads the first value bound to `key` in `pairs`, the executable
/// counterpart of `obj_lookup`.
#[verifier::loop_isolation(false)]
pub fn obj_get<'a>(pairs: &'a Vec<(String, Json)>, key: &String) -> (r: Option<&'a Json>)
    ensures
        match r {
            Some(v) => obj_lookup(pairs_view(pairs@), key@) == Some(v@),
            None => obj_lookup(pairs_view(pairs@), key@) is None,
        },
{
    let mut k: usize = 0;
    while k < pairs.len()
        invariant
            k <= pairs.len(),
            forall|j: int| 0 <= j < k as int ==> pairs_view(pairs@)[j].0 != key@,
        decreases pairs.len() - k,
    {
        if pairs[k].0 == *key {
            proof {
                lemma_obj_lookup_at(pairs_view(pairs@), key@, k as int);
            }
            return Some(&pairs[k].1);
        }
        k += 1;
    }
    proof {
        lemma_obj_lookup_none(pairs_view(pairs@), key@);
    }
    None
}

/// Binds `key` to `val` in `pairs`, the executable counterpart of
/// `obj_set`: the first pair with this key is overwritten, else a pair is
/// appended.
#[verifier::loop_isolation(false)]
pub fn obj_put(pairs: &mut Vec<(String, Json)>, key: String, val: Json)
    ensures
        pairs_view(final(pairs)@) =~= obj_set(pairs_view(old(pairs)@), key@, val@),
{
    let ghost orig = pairs_view(pairs@);
    let mut k: usize = 0;
    while k < pairs.len()
        invariant
            k <= pairs.len(),
            pairs_view(pairs@) == orig,
            forall|j: int| 0 <= j < k as int ==> orig[j].0 != key@,
        decreases pairs.len() - k,
    {
        if pairs[k].0 == key {
            proof {
                lemma_obj_set_replaces(orig, key@, val@, k as int);
            }
            let ghost before = pairs@;
            pairs.remove(k);
            pairs.insert(k, (key, val));
            proof {
                assert(pairs@ =~= before.update(k as int, (key, val)));
                assert(pairs_view(pairs@) =~= orig.update(k as int, (key@, val@)));
            }
            return ;
        }
        k += 1;
    }
    proof {
        lemma_obj_set_appends(orig, key@, val@);
    }
    pairs.push((key, val));
    proof {
        assert(pairs_view(pairs@) =~= orig.push((key@, val@)));
    }
}

} // verus!
