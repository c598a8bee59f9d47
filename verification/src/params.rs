//! Parameters that come with a request: an ordered list of values, each
//! under a key and a scope. The scope is the identifier of the module that
//! the parameter is meant for, or the empty string for all of them. A key may
//! occur more than once in a scope; the first occurrence is the one found.

use vstd::prelude::*;
use vstd::string::*;
use crate::chars::{chars_of, same_text, texts};

verus! {

/// A number as a request carries it. A number with a fraction or an exponent
/// is held by the bits of its IEEE 754 double.
#[derive(Debug, Clone, Copy, PartialEq, Eq)]
pub enum Number {
    /// An integer that is not negative.
    PosInt(u64),
    /// A negative integer.
    NegInt(i64),
    /// The bits of a double.
    Real(u64),
}

/// The value of a parameter.
#[derive(Debug, Clone, PartialEq)]
pub enum ParamValue {
    Null,
    Bool(bool),
    Number(Number),
    String(String),
    /// A list of strings.
    Array(Vec<String>),
}

/// The mathematical value of a [`ParamValue`].
pub enum ParamValueView {
    Null,
    Bool(bool),
    Number(Number),
    String(Seq<char>),
    Array(Seq<Seq<char>>),
}

impl View for ParamValue {
    type V = ParamValueView;

    open spec fn view(&self) -> ParamValueView {
        match *self {
            ParamValue::Null => ParamValueView::Null,
            ParamValue::Bool(b) => ParamValueView::Bool(b),
            ParamValue::Number(n) => ParamValueView::Number(n),
            ParamValue::String(s) => ParamValueView::String(s@),
            ParamValue::Array(a) => ParamValueView::Array(texts(a@)),
        }
    }
}

impl ParamValueView {
    /// The value as an unsigned integer, where it is one.
    pub open spec fn as_u64(self) -> Option<u64> {
        match self {
            ParamValueView::Number(Number::PosInt(n)) => Some(n),
            _ => None,
        }
    }

    /// The strings of a list; nothing for any other value.
    pub open spec fn items(self) -> Seq<Seq<char>> {
        match self {
            ParamValueView::Array(a) => a,
            _ => Seq::empty(),
        }
    }
}

/// The characters of each of `v`'s slices.
pub open spec fn slice_texts(v: Seq<&str>) -> Seq<Seq<char>> {
    Seq::new(v.len(), |i: int| v[i]@)
}

impl ParamValue {
    /// The value as an unsigned integer: `Some` for an integer that is not
    /// negative, `None` for every other value.
    pub fn as_u64(&self) -> (r: Option<u64>)
        ensures
            r == self@.as_u64(),
    {
        match self {
            ParamValue::Number(Number::PosInt(n)) => Some(*n),
            _ => None,
        }
    }

    /// Whether the value is a number.
    pub fn is_number(&self) -> (r: bool)
        ensures
            r == (self@ is Number),
    {
        match self {
            ParamValue::Number(_) => true,
            _ => false,
        }
    }

    /// The strings of a list, in order; nothing for any other value.
    pub fn as_str_array(&self) -> (r: Vec<&str>)
        ensures
            slice_texts(r@) == self@.items(),
    {
        let mut out: Vec<&str> = Vec::new();
        match self {
            ParamValue::Array(items) => {
                let mut i: usize = 0;
                while i < items.len()
                    invariant
                        i <= items.len(),
                        out@.len() == i,
                        slice_texts(out@) == texts(items@).take(i as int),
                    decreases items.len() - i,
                {
                    let ghost before = out@;
                    let item = items[i].as_str();
                    out.push(item);
                    proof {
                        let want = texts(items@).take(i + 1);
                        assert(out@.len() == i + 1);
                        assert(want.len() == i + 1);
                        assert forall|k: int| 0 <= k < i + 1 implies slice_texts(out@)[k]
                            == want[k] by {
                            if k < i {
                                assert(out@[k] == before[k]);
                                assert(slice_texts(before)[k] == texts(items@).take(i as int)[k]);
                            } else {
                                assert(out@[k] == item);
                            }
                        }
                        assert(slice_texts(out@) =~= want);
                    }
                    i = i + 1;
                }
                proof {
                    assert(texts(items@).take(i as int) =~= texts(items@));
                }
            },
            _ => {
                proof {
                    assert(slice_texts(out@) =~= Seq::<Seq<char>>::empty());
                }
            },
        }
        out
    }
}

/// A parameter: a value under a key, in a scope.
#[derive(Debug, Clone, PartialEq)]
pub struct QueryParam {
    module_id: String,
    key: String,
    value: ParamValue,
}

/// The mathematical value of a [`QueryParam`].
pub struct QueryParamView {
    pub module_id: Seq<char>,
    pub key: Seq<char>,
    pub value: ParamValueView,
}

impl View for QueryParam {
    type V = QueryParamView;

    closed spec fn view(&self) -> QueryParamView {
        QueryParamView { module_id: self.module_id@, key: self.key@, value: self.value@ }
    }
}

impl QueryParamView {
    /// Whether the parameter stands under `key` in `scope`.
    pub open spec fn is_for(self, scope: Seq<char>, key: Seq<char>) -> bool {
        self.module_id == scope && self.key == key
    }
}

impl QueryParam {
    /// The scope: a module's identifier, or the empty string.
    pub fn module_id(&self) -> (r: &str)
        ensures
            r@ == self@.module_id,
    {
        self.module_id.as_str()
    }

    pub fn key(&self) -> (r: &str)
        ensures
            r@ == self@.key,
    {
        self.key.as_str()
    }

    pub fn value(&self) -> (r: &ParamValue)
        ensures
            r@ == self@.value,
    {
        &self.value
    }
}

/// The value found under `key` in `scope`: that of the first such parameter.
pub open spec fn lookup(ps: Seq<QueryParamView>, scope: Seq<char>, key: Seq<char>) -> Option<
    ParamValueView,
>
    decreases ps.len(),
{
    if ps.len() == 0 {
        None
    } else if ps[0].is_for(scope, key) {
        Some(ps[0].value)
    } else {
        lookup(ps.drop_first(), scope, key)
    }
}

/// The parameters of `scope`, in order.
pub open spec fn scoped(ps: Seq<QueryParamView>, scope: Seq<char>) -> Seq<QueryParamView>
    decreases ps.len(),
{
    if ps.len() == 0 {
        Seq::empty()
    } else if ps.last().module_id == scope {
        scoped(ps.drop_last(), scope).push(ps.last())
    } else {
        scoped(ps.drop_last(), scope)
    }
}

/// The values of a sequence of parameters.
pub open spec fn param_views(ps: Seq<QueryParam>) -> Seq<QueryParamView> {
    Seq::new(ps.len(), |i: int| ps[i]@)
}

/// The values of a sequence of borrowed parameters.
pub open spec fn param_ref_views(ps: Seq<&QueryParam>) -> Seq<QueryParamView> {
    Seq::new(ps.len(), |i: int| ps[i]@)
}

/// Where a flat key is cut into scope and key: at its first dot. The result
/// is the length of `key` where it holds no dot.
pub open spec fn scope_len(key: Seq<char>) -> int
    decreases key.len(),
{
    if key.len() == 0 || key[0] == '.' {
        0
    } else {
        1 + scope_len(key.drop_first())
    }
}

/// The scope of a flat key: what stands before its first dot, or nothing
/// where it holds no dot.
pub open spec fn flat_scope(key: Seq<char>) -> Seq<char> {
    if scope_len(key) < key.len() {
        key.subrange(0, scope_len(key))
    } else {
        Seq::empty()
    }
}

/// The key of a flat key: what stands after its first dot, or all of it
/// where it holds no dot.
pub open spec fn flat_key(key: Seq<char>) -> Seq<char> {
    if scope_len(key) < key.len() {
        key.subrange(scope_len(key) + 1, key.len() as int)
    } else {
        key
    }
}

/// The parameter that a flat pair of key and value stands for. The value is
/// a string.
pub open spec fn flat_param(key: Seq<char>, value: Seq<char>) -> QueryParamView {
    QueryParamView {
        module_id: flat_scope(key),
        key: flat_key(key),
        value: ParamValueView::String(value),
    }
}

/// The parameters that flat pairs stand for, in order.
pub open spec fn flat_params(pairs: Seq<(String, String)>) -> Seq<QueryParamView> {
    Seq::new(pairs.len(), |i: int| flat_param(pairs[i].0@, pairs[i].1@))
}

/// `scope_len` stays within the key, stops at a dot, and passes none.
pub proof fn lemma_scope_len(key: Seq<char>)
    ensures
        0 <= scope_len(key) <= key.len(),
        scope_len(key) < key.len() ==> key[scope_len(key)] == '.',
        forall|j: int| 0 <= j < scope_len(key) ==> key[j] != '.',
    decreases key.len(),
{
    if key.len() > 0 && key[0] != '.' {
        let rest = key.drop_first();
        lemma_scope_len(rest);
        assert forall|j: int| 0 <= j < scope_len(key) implies key[j] != '.' by {
            if j > 0 {
                assert(key[j] == rest[j - 1]);
            }
        }
    }
}

/// Parameters passed to a query at run time.
#[derive(Debug, Clone, PartialEq)]
pub struct QueryParams(Vec<QueryParam>);

impl View for QueryParams {
    type V = Seq<QueryParamView>;

    closed spec fn view(&self) -> Seq<QueryParamView> {
        param_views(self.0@)
    }
}

impl QueryParams {
    /// No parameters.
    pub fn new() -> (r: Self)
        ensures
            r@ == Seq::<QueryParamView>::empty(),
    {
        let r = QueryParams(Vec::new());
        proof {
            assert(r@ =~= Seq::<QueryParamView>::empty());
        }
        r
    }

    /// The parameters with one more at their end.
    pub fn with(self, module_id: &str, key: &str, value: ParamValue) -> (r: Self)
        ensures
            r@ == self@.push(
                QueryParamView { module_id: module_id@, key: key@, value: value@ },
            ),
    {
        let mut r = self;
        r.insert(module_id, key, value);
        r
    }

    /// Appends a parameter. An empty `module_id` stands for the global
    /// scope. Nothing that is there is replaced.
    pub fn insert(&mut self, module_id: &str, key: &str, value: ParamValue)
        ensures
            final(self)@ == old(self)@.push(
                QueryParamView { module_id: module_id@, key: key@, value: value@ },
            ),
    {
        self.0.push(QueryParam { module_id: module_id.to_owned(), key: key.to_owned(), value });
        proof {
            assert(final(self)@ =~= old(self)@.push(
                QueryParamView { module_id: module_id@, key: key@, value: value@ },
            ));
        }
    }

    /// The number of parameters.
    pub fn len(&self) -> (n: usize)
        ensures
            n == self@.len(),
    {
        self.0.len()
    }

    /// Whether a parameter stands under `key` in the scope `module_id`.
    pub fn contains(&self, module_id: &str, key: &str) -> (r: bool)
        ensures
            r == lookup(self@, module_id@, key@).is_some(),
    {
        self.get(module_id, key).is_some()
    }

    /// All parameters, in the order in which they were inserted.
    pub fn iter(&self) -> (r: &Vec<QueryParam>)
        ensures
            param_views(r@) == self@,
    {
        &self.0
    }

    /// The parameters of the scope `module_id`, in the order in which they
    /// were inserted.
    pub fn iter_for_module<'a>(&'a self, module_id: &str) -> (r: Vec<&'a QueryParam>)
        ensures
            param_ref_views(r@) == scoped(self@, module_id@),
    {
        let mut out: Vec<&'a QueryParam> = Vec::new();
        let mut i: usize = 0;
        proof {
            assert(self@.take(0) =~= Seq::<QueryParamView>::empty());
            assert(param_ref_views(out@) =~= Seq::<QueryParamView>::empty());
        }
        while i < self.0.len()
            invariant
                i <= self.0.len(),
                param_ref_views(out@) == scoped(self@.take(i as int), module_id@),
            decreases self.0.len() - i,
        {
            let p = &self.0[i];
            let ghost before = out@;
            proof {
                assert(self@.take(i + 1).drop_last() =~= self@.take(i as int));
                assert(self@.take(i + 1).last() == p@);
            }
            if same_text(p.module_id(), module_id) {
                out.push(p);
                proof {
                    assert(param_ref_views(out@) =~= param_ref_views(before).push(p@));
                }
            }
            i = i + 1;
        }
        proof {
            assert(self@.take(i as int) =~= self@);
        }
        out
    }

    /// The value under `key` in the scope `module_id`: that of the first
    /// such parameter, or `None` where there is none.
    pub fn get<'a>(&'a self, module_id: &str, key: &str) -> (r: Option<&'a ParamValue>)
        ensures
            match r {
                Some(v) => lookup(self@, module_id@, key@) == Some(v@),
                None => lookup(self@, module_id@, key@).is_none(),
            },
    {
        let mut i: usize = 0;
        proof {
            assert(self@.skip(0) =~= self@);
        }
        while i < self.0.len()
            invariant
                i <= self.0.len(),
                lookup(self@, module_id@, key@) == lookup(self@.skip(i as int), module_id@, key@),
            decreases self.0.len() - i,
        {
            let p = &self.0[i];
            proof {
                assert(self@.skip(i as int)[0] == p@);
                assert(self@.skip(i as int).drop_first() =~= self@.skip(i + 1));
            }
            if same_text(p.module_id(), module_id) && same_text(p.key(), key) {
                return Some(p.value());
            }
            i = i + 1;
        }
        None
    }

    /// The parameters that a flat list of keys and values stands for, in its
    /// order. A key with a dot is cut at its first dot into a scope and a
    /// key; a key without a dot is of the global scope. Each value is a
    /// string.
    pub fn from_pairs(pairs: &Vec<(String, String)>) -> (r: Self)
        ensures
            r@ == flat_params(pairs@),
    {
        let mut r = QueryParams::new();
        let mut i: usize = 0;
        while i < pairs.len()
            invariant
                i <= pairs.len(),
                r@ == flat_params(pairs@).take(i as int),
            decreases pairs.len() - i,
        {
            let flat = pairs[i].0.as_str();
            let value = ParamValue::String(pairs[i].1.clone());
            let chars = chars_of(flat);
            let mut cut: usize = 0;
            proof {
                assert(chars@.skip(0) =~= chars@);
            }
            while cut < chars.len() && chars[cut] != '.'
                invariant
                    cut <= chars.len(),
                    scope_len(chars@) == cut + scope_len(chars@.skip(cut as int)),
                decreases chars.len() - cut,
            {
                proof {
                    assert(chars@.skip(cut as int).drop_first() =~= chars@.skip(cut + 1));
                }
                cut = cut + 1;
            }
            proof {
                lemma_scope_len(chars@);
            }
            if cut < chars.len() {
                let scope = flat.substring_char(0, cut);
                let key = flat.substring_char(cut + 1, chars.len());
                r.insert(scope, key, value);
            } else {
                proof {
                    reveal_strlit("");
                    assert(""@ =~= Seq::<char>::empty());
                }
                r.insert("", flat, value);
            }
            proof {
                assert(r@ =~= flat_params(pairs@).take(i + 1));
            }
            i = i + 1;
        }
        proof {
            assert(flat_params(pairs@).take(i as int) =~= flat_params(pairs@));
        }
        r
    }
}

impl Default for QueryParams {
    fn default() -> (r: Self)
        ensures
            r@ == Seq::<QueryParamView>::empty(),
    {
        QueryParams::new()
    }
}

/// A parameter that is appended is found under its key where none was there
/// before; what was found before is still found.
pub proof fn lemma_lookup_push(
    ps: Seq<QueryParamView>,
    p: QueryParamView,
    scope: Seq<char>,
    key: Seq<char>,
)
    ensures
        lookup(ps.push(p), scope, key) == if lookup(ps, scope, key).is_some() {
            lookup(ps, scope, key)
        } else if p.is_for(scope, key) {
            Some(p.value)
        } else {
            None
        },
    decreases ps.len(),
{
    if ps.len() == 0 {
        assert(ps.push(p).drop_first() =~= ps);
    } else {
        assert(ps.push(p)[0] == ps[0]);
        assert(ps.push(p).drop_first() =~= ps.drop_first().push(p));
        lemma_lookup_push(ps.drop_first(), p, scope, key);
    }
}

} // verus!
