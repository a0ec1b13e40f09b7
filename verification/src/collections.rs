//! Maps and sets as engine data.
//!
//! A map from strings becomes an object and a set becomes an array. Both are
//! kept here in the order in which their entries were entered, so that what
//! is read back is what was written.

use vstd::prelude::*;
use crate::convert::{
    lemma_vec_round_trips,
    one_more,
    one_more_level,
    round_trips,
    type_error,
    FromJs,
    IntoJs,
};
use crate::datum::{lemma_lookup_distinct, lemma_properties_cut, Datum, Tree};
use crate::error::{Error, ErrorModel};
use crate::number::Number;
use crate::value::ValueKind;

verus! {

/// Whether no two entries have one key.
pub open spec fn distinct_keys<V>(entries: Seq<(Seq<char>, V)>) -> bool {
    forall|i: int, j: int| 0 <= i < j < entries.len() ==> entries[i].0 != entries[j].0
}

/// Whether one of the entries has the key `key`.
pub open spec fn has_key<V>(entries: Seq<(Seq<char>, V)>, key: Seq<char>) -> bool {
    exists|i: int| 0 <= i < entries.len() && entries[i].0 == key
}

/// The entries after `value` is entered under `key`: where the key is new,
/// the entry is added at the end; where it is not, the value takes the place
/// of the one that was there, and the entry stays where it was.
pub open spec fn entered<V>(entries: Seq<(Seq<char>, V)>, key: Seq<char>, value: V) -> Seq<
    (Seq<char>, V),
> {
    if has_key(entries, key) {
        entries.update(
            choose|i: int| 0 <= i < entries.len() && entries[i].0 == key,
            (key, value),
        )
    } else {
        entries.push((key, value))
    }
}

/// The entries after each of `pairs` is entered, in order.
pub open spec fn entered_all<V>(pairs: Seq<(Seq<char>, V)>) -> Seq<(Seq<char>, V)>
    decreases pairs.len(),
{
    if pairs.len() == 0 {
        Seq::<(Seq<char>, V)>::empty()
    } else {
        entered(entered_all(pairs.drop_last()), pairs.last().0, pairs.last().1)
    }
}

/// Among entries with distinct keys, entering a value under the key of the
/// entry at `i` changes that entry and no other, and the keys stay distinct.
pub proof fn lemma_entered_at<V>(entries: Seq<(Seq<char>, V)>, key: Seq<char>, value: V, i: int)
    requires
        distinct_keys(entries),
        0 <= i < entries.len(),
        entries[i].0 == key,
    ensures
        entered(entries, key, value) == entries.update(i, (key, value)),
        distinct_keys(entered(entries, key, value)),
{
    assert(has_key(entries, key));
    let j = choose|j: int| 0 <= j < entries.len() && entries[j].0 == key;
    if j < i {
        assert(entries[j].0 != entries[i].0);
    }
    if i < j {
        assert(entries[i].0 != entries[j].0);
    }
    let after = entries.update(i, (key, value));
    assert forall|a: int, b: int| 0 <= a < b < after.len() implies after[a].0 != after[b].0 by {
        assert(after[a].0 == entries[a].0);
        assert(after[b].0 == entries[b].0);
    }
}

/// Entering a value under a key that no entry has adds an entry at the end,
/// and keys that were distinct stay distinct.
pub proof fn lemma_entered_new<V>(entries: Seq<(Seq<char>, V)>, key: Seq<char>, value: V)
    requires
        distinct_keys(entries),
        !has_key(entries, key),
    ensures
        entered(entries, key, value) == entries.push((key, value)),
        distinct_keys(entered(entries, key, value)),
{
    let after = entries.push((key, value));
    assert forall|a: int, b: int| 0 <= a < b < after.len() implies after[a].0 != after[b].0 by {
        if b == entries.len() {
            assert(after[a] == entries[a]);
        } else {
            assert(after[a] == entries[a]);
            assert(after[b] == entries[b]);
        }
    }
}

/// Entering one pair after another leaves distinct keys, whatever the pairs.
pub proof fn lemma_entered_all_distinct<V>(pairs: Seq<(Seq<char>, V)>)
    ensures
        distinct_keys(entered_all(pairs)),
    decreases pairs.len(),
{
    if pairs.len() > 0 {
        let front = entered_all(pairs.drop_last());
        lemma_entered_all_distinct(pairs.drop_last());
        if has_key(front, pairs.last().0) {
            let i = choose|i: int| 0 <= i < front.len() && front[i].0 == pairs.last().0;
            lemma_entered_at(front, pairs.last().0, pairs.last().1, i);
        } else {
            lemma_entered_new(front, pairs.last().0, pairs.last().1);
        }
    }
}

/// Pairs with distinct keys are entered one for one, in their order.
pub proof fn lemma_entered_all_keeps_distinct<V>(pairs: Seq<(Seq<char>, V)>)
    requires
        distinct_keys(pairs),
    ensures
        entered_all(pairs) == pairs,
    decreases pairs.len(),
{
    if pairs.len() > 0 {
        let front = pairs.drop_last();
        lemma_entered_all_keeps_distinct(front);
        if has_key(front, pairs.last().0) {
            let i = choose|i: int| 0 <= i < front.len() && front[i].0 == pairs.last().0;
            assert(pairs[i].0 == pairs[pairs.len() - 1].0);
        }
        lemma_entered_new(front, pairs.last().0, pairs.last().1);
        assert(front.push(pairs.last()) =~= pairs);
    } else {
        assert(pairs =~= Seq::<(Seq<char>, V)>::empty());
    }
}

/// The mathematical content of entries whose values have one.
pub open spec fn deep_entries<T: DeepView>(entries: Seq<(Seq<char>, T)>) -> Seq<
    (Seq<char>, T::V),
> {
    Seq::new(entries.len(), |i: int| (entries[i].0, entries[i].1.deep_view()))
}

/// Entering a value and then taking the content of the entries is the same
/// as taking the content and then entering the content of the value.
pub proof fn lemma_entered_deep<T: DeepView>(
    entries: Seq<(Seq<char>, T)>,
    key: Seq<char>,
    value: T,
)
    requires
        distinct_keys(entries),
    ensures
        deep_entries(entered(entries, key, value)) == entered(
            deep_entries(entries),
            key,
            value.deep_view(),
        ),
        distinct_keys(deep_entries(entries)),
{
    let deep = deep_entries(entries);
    assert forall|a: int, b: int| 0 <= a < b < deep.len() implies deep[a].0 != deep[b].0 by {
        assert(deep[a].0 == entries[a].0);
        assert(deep[b].0 == entries[b].0);
    }
    if has_key(entries, key) {
        let i = choose|i: int| 0 <= i < entries.len() && entries[i].0 == key;
        lemma_entered_at(entries, key, value, i);
        assert(deep[i].0 == key);
        lemma_entered_at(deep, key, value.deep_view(), i);
        assert(deep_entries(entries.update(i, (key, value))) =~= deep.update(
            i,
            (key, value.deep_view()),
        ));
    } else {
        if has_key(deep, key) {
            let j = choose|j: int| 0 <= j < deep.len() && deep[j].0 == key;
            assert(entries[j].0 == key);
        }
        lemma_entered_new(entries, key, value);
        lemma_entered_new(deep, key, value.deep_view());
        assert(deep_entries(entries.push((key, value))) =~= deep.push((key, value.deep_view())));
    }
}

/// A map from strings to values of one type that keeps its entries in the
/// order in which their keys were first entered. No two entries have one
/// key.
#[derive(Debug)]
pub struct Record<T> {
    entries: Vec<(String, T)>,
}

impl<T> View for Record<T> {
    type V = Seq<(Seq<char>, T)>;

    closed spec fn view(&self) -> Seq<(Seq<char>, T)> {
        Seq::new(self.entries@.len(), |i: int| (self.entries@[i].0@, self.entries@[i].1))
    }
}

impl<T> Record<T> {
    #[verifier::type_invariant]
    spec fn inv(&self) -> bool {
        distinct_keys(self@)
    }

    /// A record without entries.
    pub fn new() -> (r: Self)
        ensures
            r@ == Seq::<(Seq<char>, T)>::empty(),
    {
        let r = Record { entries: Vec::new() };
        assert(r@ =~= Seq::<(Seq<char>, T)>::empty());
        r
    }

    /// How many entries the record has.
    pub fn len(&self) -> (n: usize)
        ensures
            n == self@.len(),
            distinct_keys(self@),
    {
        proof {
            use_type_invariant(self);
        }
        self.entries.len()
    }

    /// Where the entry with the key `key` stands, if there is one.
    fn find(&self, key: &String) -> (r: Option<usize>)
        ensures
            match r {
                Some(i) => i < self@.len() && self@[i as int].0 == key@,
                None => !has_key(self@, key@),
            },
    {
        let mut i: usize = 0;
        while i < self.entries.len()
            invariant
                i <= self.entries@.len(),
                self@.len() == self.entries@.len(),
                forall|j: int| 0 <= j < i ==> self@[j].0 != key@,
            decreases self.entries@.len() - i,
        {
            assert(self@[i as int].0 == self.entries@[i as int].0@);
            if self.entries[i].0 == *key {
                return Some(i);
            }
            i += 1;
        }
        None
    }

    /// The value that is entered under `key`, if any.
    pub fn get(&self, key: &String) -> (r: Option<&T>)
        ensures
            match r {
                Some(v) => exists|i: int| 0 <= i < self@.len() && self@[i] == (key@, *v),
                None => !has_key(self@, key@),
            },
            distinct_keys(self@),
    {
        proof {
            use_type_invariant(self);
        }
        match self.find(key) {
            Some(i) => {
                assert(self@[i as int] == (key@, self.entries@[i as int].1));
                Some(&self.entries[i].1)
            },
            None => None,
        }
    }

    /// Enters `value` under `key`. If the key is new, the entry goes to the
    /// end and nothing is returned; if not, the value takes the place of
    /// the one that was there, which is returned. The other entries stay as
    /// they are.
    pub fn insert(&mut self, key: String, value: T) -> (previous: Option<T>)
        ensures
            final(self)@ == entered(old(self)@, key@, value),
            distinct_keys(final(self)@),
            match previous {
                Some(v) => exists|i: int|
                    0 <= i < old(self)@.len() && old(self)@[i] == (key@, v),
                None => !has_key(old(self)@, key@),
            },
    {
        proof {
            use_type_invariant(&*self);
        }
        let ghost before = self@;
        let found = self.find(&key);
        let mut entries: Vec<(String, T)> = Vec::new();
        std::mem::swap(&mut self.entries, &mut entries);
        let ghost held = Seq::new(entries@.len(), |i: int| (entries@[i].0@, entries@[i].1));
        assert(held =~= before);
        match found {
            Some(i) => {
                let ghost replaced = entries@[i as int].1;
                entries.push((key, value));
                let (_, previous) = entries.swap_remove(i);
                proof {
                    lemma_entered_at(before, key@, value, i as int);
                    assert(Seq::new(entries@.len(), |j: int| (entries@[j].0@, entries@[j].1))
                        =~= before.update(i as int, (key@, value)));
                    assert(before[i as int] == (key@, previous));
                }
                self.entries = entries;
                Some(previous)
            },
            None => {
                entries.push((key, value));
                proof {
                    lemma_entered_new(before, key@, value);
                    assert(Seq::new(entries@.len(), |j: int| (entries@[j].0@, entries@[j].1))
                        =~= before.push((key@, value)));
                }
                self.entries = entries;
                None
            },
        }
    }

    /// The record that holds the given pairs, entered in their order: of
    /// pairs with one key the first decides the place and the last the
    /// value.
    pub fn from_entries(pairs: Vec<(String, T)>) -> (r: Self)
        ensures
            r@ == entered_all(Seq::new(pairs@.len(), |i: int| (pairs@[i].0@, pairs@[i].1))),
            distinct_keys(r@),
    {
        let ghost model = Seq::new(pairs@.len(), |i: int| (pairs@[i].0@, pairs@[i].1));
        let mut out: Record<T> = Record::new();
        assert(model.take(0) =~= Seq::<(Seq<char>, T)>::empty());
        for pair in iter: pairs.into_iter()
            invariant
                iter.seq() == pairs@,
                model == Seq::new(pairs@.len(), |i: int| (pairs@[i].0@, pairs@[i].1)),
                out@ == entered_all(model.take(iter.index() as int)),
        {
            let ghost k = iter.index() as int;
            proof {
                assert(model.take(k + 1).drop_last() =~= model.take(k));
                assert(model.take(k + 1).last() == (pair.0@, pair.1));
            }
            let (key, value) = pair;
            out.insert(key, value);
        }
        proof {
            assert(model.take(model.len() as int) =~= model);
            lemma_entered_all_distinct(model);
        }
        out
    }

    /// Gives the entries up, in order.
    pub fn into_entries(self) -> (pairs: Vec<(String, T)>)
        ensures
            self@ == Seq::new(pairs@.len(), |i: int| (pairs@[i].0@, pairs@[i].1)),
            distinct_keys(self@),
    {
        proof {
            use_type_invariant(&self);
        }
        self.entries
    }
}

impl<T: DeepView> DeepView for Record<T> {
    type V = Seq<(Seq<char>, T::V)>;

    open spec fn deep_view(&self) -> Seq<(Seq<char>, T::V)> {
        deep_entries(self@)
    }
}

/// The entries of an object that holds the given native entries, in order;
/// or, where the conversion of a value fails, the error of the first that
/// does.
pub open spec fn encode_entries<T: IntoJs>(entries: Seq<(Seq<char>, T::V)>) -> Result<
    Seq<(Seq<char>, Tree)>,
    ErrorModel,
>
    decreases entries.len(),
{
    if entries.len() == 0 {
        Ok(Seq::<(Seq<char>, Tree)>::empty())
    } else {
        match encode_entries::<T>(entries.drop_last()) {
            Err(e) => Err(e),
            Ok(done) => match T::encoded(entries.last().1) {
                Err(e) => Err(e),
                Ok(t) => Ok(done.push((entries.last().0, t))),
            },
        }
    }
}

/// The native entries that the properties `keys` of `tree` are read as,
/// each entered under its key in order; or, where the reading of a value
/// fails, the error of the first that does.
pub open spec fn decode_entries<T: FromJs>(keys: Seq<Seq<char>>, tree: Tree) -> Result<
    Seq<(Seq<char>, T::V)>,
    ErrorModel,
>
    decreases keys.len(),
{
    if keys.len() == 0 {
        Ok(Seq::<(Seq<char>, T::V)>::empty())
    } else {
        match decode_entries::<T>(keys.drop_last(), tree) {
            Err(e) => Err(e),
            Ok(done) => match T::decoded(tree.get(keys.last())) {
                Err(e) => Err(e),
                Ok(m) => Ok(entered(done, keys.last(), m)),
            },
        }
    }
}

/// Once the conversion of a prefix of the entries has failed, the
/// conversion of the whole fails in the same way.
pub proof fn lemma_encode_entries_stops<T: IntoJs>(entries: Seq<(Seq<char>, T::V)>, k: int)
    requires
        0 <= k <= entries.len(),
        encode_entries::<T>(entries.take(k)) is Err,
    ensures
        encode_entries::<T>(entries) == encode_entries::<T>(entries.take(k)),
    decreases entries.len() - k,
{
    if k < entries.len() {
        assert(entries.take(k + 1).drop_last() =~= entries.take(k));
        lemma_encode_entries_stops::<T>(entries, k + 1);
    } else {
        assert(entries.take(k) =~= entries);
    }
}

/// Once the reading of a prefix of the keys has failed, the reading of the
/// whole fails in the same way.
pub proof fn lemma_decode_entries_stops<T: FromJs>(keys: Seq<Seq<char>>, tree: Tree, k: int)
    requires
        0 <= k <= keys.len(),
        decode_entries::<T>(keys.take(k), tree) is Err,
    ensures
        decode_entries::<T>(keys, tree) == decode_entries::<T>(keys.take(k), tree),
    decreases keys.len() - k,
{
    if k < keys.len() {
        assert(keys.take(k + 1).drop_last() =~= keys.take(k));
        lemma_decode_entries_stops::<T>(keys, tree, k + 1);
    } else {
        assert(keys.take(k) =~= keys);
    }
}

/// The properties of a tree that was read one level further than `T`
/// reaches, or further still, are read as the same entries as those of the
/// tree itself.
pub proof fn lemma_decode_entries_cut<T: FromJs>(keys: Seq<Seq<char>>, tree: Tree, levels: nat)
    requires
        T::reach() is Some,
        levels >= T::reach()->0 + 1,
    ensures
        decode_entries::<T>(keys, tree.cut(levels)) == decode_entries::<T>(keys, tree),
    decreases keys.len(),
{
    if keys.len() > 0 {
        lemma_decode_entries_cut::<T>(keys.drop_last(), tree, levels);
        lemma_properties_cut(tree, keys.last(), levels);
        T::lemma_reach(tree.get(keys.last()), (levels - 1) as nat);
    }
}

impl<T: IntoJs> IntoJs for Record<T> {
    open spec fn encoded(model: Seq<(Seq<char>, T::V)>) -> Result<Tree, ErrorModel> {
        match encode_entries::<T>(model) {
            Ok(entries) => Ok(Tree::Object(entries)),
            Err(e) => Err(e),
        }
    }

    fn into_js(self) -> (r: Result<Datum, Error>) {
        let ghost model = self.deep_view();
        let mut out: Vec<(String, Datum)> = Vec::new();
        assert(model.take(0) =~= Seq::<(Seq<char>, T::V)>::empty());
        for entry in iter: self.entries.into_iter()
            invariant
                iter.seq() == self.entries@,
                model == self.deep_view(),
                encode_entries::<T>(model.take(iter.index() as int)) is Ok,
                out@.len() == iter.index(),
                encode_entries::<T>(model.take(iter.index() as int))->Ok_0.len() == iter.index(),
                forall|j: int|
                    0 <= j < out@.len() ==> (out@[j].0@, out@[j].1@) == encode_entries::<T>(
                        model.take(iter.index() as int),
                    )->Ok_0[j],
        {
            let ghost k = iter.index() as int;
            proof {
                assert(model.take(k + 1).drop_last() =~= model.take(k));
                assert(model.take(k + 1).last() == (entry.0@, entry.1.deep_view()));
            }
            let (key, value) = entry;
            match value.into_js() {
                Ok(d) => {
                    out.push((key, d));
                },
                Err(e) => {
                    proof {
                        lemma_encode_entries_stops::<T>(model, k + 1);
                    }
                    return Err(e);
                },
            }
        }
        let d = Datum::Object(out);
        proof {
            assert(model.take(model.len() as int) =~= model);
            Datum::lemma_object_view(out);
            assert(d@->Object_0 =~= encode_entries::<T>(model)->Ok_0);
        }
        Ok(d)
    }
}

impl<T: FromJs> FromJs for Record<T> {
    open spec fn decoded(tree: Tree) -> Result<Seq<(Seq<char>, T::V)>, ErrorModel> {
        if tree.kind() == ValueKind::Object {
            decode_entries::<T>(tree.keys(), tree)
        } else {
            Err(type_error("object"@, tree))
        }
    }

    open spec fn reach() -> Option<nat> {
        one_more(T::reach())
    }

    fn from_js(value: &Datum) -> (r: Result<Self, Error>) {
        match value.kind() {
            ValueKind::Object => {},
            _ => {
                return Err(Error::TypeError { expected: "object", got: value.kind().name() });
            },
        }
        let keys = value.keys();
        let ghost names = value@.keys();
        let mut out: Record<T> = Record::new();
        let mut i: usize = 0;
        proof {
            assert(names.take(0) =~= Seq::<Seq<char>>::empty());
            assert(names.len() == keys@.len());
            assert(out.deep_view() =~= Seq::<(Seq<char>, T::V)>::empty());
        }
        while i < keys.len()
            invariant
                i <= keys.len(),
                names == value@.keys(),
                names == keys.deep_view(),
                names.len() == keys@.len(),
                distinct_keys(out@),
                decode_entries::<T>(names.take(i as int), value@) == Ok::<
                    Seq<(Seq<char>, T::V)>,
                    ErrorModel,
                >(out.deep_view()),
            decreases keys.len() - i,
        {
            proof {
                assert(names.take(i + 1).drop_last() =~= names.take(i as int));
                assert(names.take(i + 1).last() == keys@[i as int]@);
            }
            let found = value.get(&keys[i]);
            match T::from_js(&found) {
                Ok(v) => {
                    proof {
                        lemma_entered_deep(out@, keys@[i as int]@, v);
                    }
                    out.insert(keys[i].clone(), v);
                },
                Err(e) => {
                    proof {
                        lemma_decode_entries_stops::<T>(names, value@, i + 1);
                    }
                    return Err(e);
                },
            }
            i += 1;
        }
        proof {
            assert(names.take(names.len() as int) =~= names);
        }
        Ok(out)
    }

    fn levels() -> (n: Option<usize>) {
        one_more_level(T::levels())
    }

    proof fn lemma_reach(tree: Tree, levels: nat) {
        if T::reach() is Some && levels >= T::reach()->0 + 1 {
            lemma_properties_cut(tree, Seq::<char>::empty(), levels);
            if tree.kind() == ValueKind::Object {
                lemma_decode_entries_cut::<T>(tree.keys(), tree, levels);
            }
        }
    }
}

/// A native type whose values can be told apart: two values are the same
/// exactly if their mathematical content is.
pub trait Same: Sized + DeepView {
    /// Whether the two values are the same.
    fn same(&self, other: &Self) -> (b: bool)
        ensures
            b == (self.deep_view() == other.deep_view()),
    ;
}

impl Same for bool {
    fn same(&self, other: &Self) -> (b: bool) {
        *self == *other
    }
}

impl Same for String {
    fn same(&self, other: &Self) -> (b: bool) {
        *self == *other
    }
}

impl Same for Number {
    fn same(&self, other: &Self) -> (b: bool) {
        self.bits() == other.bits()
    }
}

impl Same for i8 {
    fn same(&self, other: &Self) -> (b: bool) {
        *self == *other
    }
}

impl Same for u8 {
    fn same(&self, other: &Self) -> (b: bool) {
        *self == *other
    }
}

impl Same for i16 {
    fn same(&self, other: &Self) -> (b: bool) {
        *self == *other
    }
}

impl Same for u16 {
    fn same(&self, other: &Self) -> (b: bool) {
        *self == *other
    }
}

impl Same for i32 {
    fn same(&self, other: &Self) -> (b: bool) {
        *self == *other
    }
}

impl Same for u32 {
    fn same(&self, other: &Self) -> (b: bool) {
        *self == *other
    }
}

impl Same for i64 {
    fn same(&self, other: &Self) -> (b: bool) {
        *self == *other
    }
}

impl Same for u64 {
    fn same(&self, other: &Self) -> (b: bool) {
        *self == *other
    }
}

impl Same for isize {
    fn same(&self, other: &Self) -> (b: bool) {
        *self == *other
    }
}

impl Same for usize {
    fn same(&self, other: &Self) -> (b: bool) {
        *self == *other
    }
}

/// A set of values of one type that keeps its elements in the order in
/// which they were first entered. No two elements are the same.
#[derive(Debug)]
pub struct Distinct<T: Same> {
    items: Vec<T>,
}

impl<T: Same> DeepView for Distinct<T> {
    type V = Seq<T::V>;

    closed spec fn deep_view(&self) -> Seq<T::V> {
        self.items.deep_view()
    }
}

/// A sequence without what occurs in it a second time: of equal elements
/// the first stays.
pub open spec fn without_repeats<A>(items: Seq<A>) -> Seq<A>
    decreases items.len(),
{
    if items.len() == 0 {
        Seq::<A>::empty()
    } else {
        let front = without_repeats(items.drop_last());
        if front.contains(items.last()) {
            front
        } else {
            front.push(items.last())
        }
    }
}

/// Whether no element occurs twice.
pub open spec fn no_repeats<A>(items: Seq<A>) -> bool {
    forall|i: int, j: int| 0 <= i < j < items.len() ==> items[i] != items[j]
}

/// What is left of a sequence without its repeats has none, and holds
/// exactly the elements that the sequence holds.
pub proof fn lemma_without_repeats<A>(items: Seq<A>)
    ensures
        no_repeats(without_repeats(items)),
        forall|a: A| without_repeats(items).contains(a) <==> items.contains(a),
    decreases items.len(),
{
    if items.len() > 0 {
        let front = items.drop_last();
        let last = items.last();
        lemma_without_repeats(front);
        let kept = without_repeats(front);
        let whole = without_repeats(items);
        assert forall|a: A| whole.contains(a) implies items.contains(a) by {
            let k = choose|k: int| 0 <= k < whole.len() && whole[k] == a;
            if k < kept.len() {
                assert(kept[k] == a);
                assert(kept.contains(a));
                assert(front.contains(a));
                let i = choose|i: int| 0 <= i < front.len() && front[i] == a;
                assert(items[i] == a);
            } else {
                assert(a == last);
                assert(items[items.len() - 1] == a);
            }
        }
        assert forall|a: A| items.contains(a) implies whole.contains(a) by {
            let i = choose|i: int| 0 <= i < items.len() && items[i] == a;
            if i < front.len() {
                assert(front[i] == a);
                assert(front.contains(a));
                assert(kept.contains(a));
                let k = choose|k: int| 0 <= k < kept.len() && kept[k] == a;
                assert(whole[k] == a);
            } else {
                assert(a == last);
                if kept.contains(last) {
                    assert(whole == kept);
                } else {
                    assert(whole[kept.len() as int] == a);
                }
            }
        }
        assert(no_repeats(whole)) by {
            if !kept.contains(last) {
                assert forall|i: int, j: int| 0 <= i < j < whole.len() implies whole[i]
                    != whole[j] by {
                    if j == kept.len() {
                        if whole[i] == whole[j] {
                            assert(kept[i] == last);
                            assert(kept.contains(last));
                        }
                    } else {
                        assert(whole[i] == kept[i]);
                        assert(whole[j] == kept[j]);
                    }
                }
            }
        }
    }
}

/// A sequence in which nothing occurs twice is left as it is.
pub proof fn lemma_without_repeats_keeps_distinct<A>(items: Seq<A>)
    requires
        no_repeats(items),
    ensures
        without_repeats(items) == items,
    decreases items.len(),
{
    if items.len() > 0 {
        let front = items.drop_last();
        lemma_without_repeats_keeps_distinct(front);
        if front.contains(items.last()) {
            let i = choose|i: int| 0 <= i < front.len() && front[i] == items.last();
            assert(items[i] == items[items.len() - 1]);
        }
        assert(front.push(items.last()) =~= items);
    } else {
        assert(items =~= Seq::<A>::empty());
    }
}

impl<T: Same> Distinct<T> {
    #[verifier::type_invariant]
    spec fn inv(&self) -> bool {
        no_repeats(self.deep_view())
    }

    /// A set without elements.
    pub fn new() -> (r: Self)
        ensures
            r.deep_view() == Seq::<T::V>::empty(),
    {
        let items: Vec<T> = Vec::new();
        assert(items.deep_view() =~= Seq::<T::V>::empty());
        Distinct { items }
    }

    /// How many elements the set has.
    pub fn len(&self) -> (n: usize)
        ensures
            n == self.deep_view().len(),
            no_repeats(self.deep_view()),
    {
        proof {
            use_type_invariant(self);
        }
        assert(self.items.deep_view().len() == self.items@.len());
        self.items.len()
    }

    /// Whether the set has an element that is the same as `value`.
    pub fn contains(&self, value: &T) -> (b: bool)
        ensures
            b == self.deep_view().contains(value.deep_view()),
    {
        let ghost model = self.deep_view();
        let mut i: usize = 0;
        while i < self.items.len()
            invariant
                i <= self.items@.len(),
                model == self.deep_view(),
                model.len() == self.items@.len(),
                forall|j: int| 0 <= j < i ==> model[j] != value.deep_view(),
            decreases self.items@.len() - i,
        {
            assert(model[i as int] == self.items@[i as int].deep_view());
            if self.items[i].same(value) {
                return true;
            }
            i += 1;
        }
        false
    }

    /// Enters `value`, unless the set has it already. Says whether it was
    /// new.
    pub fn insert(&mut self, value: T) -> (added: bool)
        ensures
            added == !old(self).deep_view().contains(value.deep_view()),
            final(self).deep_view() == if added {
                old(self).deep_view().push(value.deep_view())
            } else {
                old(self).deep_view()
            },
            no_repeats(final(self).deep_view()),
    {
        proof {
            use_type_invariant(&*self);
        }
        if self.contains(&value) {
            false
        } else {
            let ghost before = self.deep_view();
            let ghost entered = value.deep_view();
            let mut items: Vec<T> = Vec::new();
            std::mem::swap(&mut self.items, &mut items);
            items.push(value);
            proof {
                assert(items.deep_view() =~= before.push(entered));
                assert forall|i: int, j: int|
                    0 <= i < j < before.push(entered).len() implies before.push(entered)[i]
                    != before.push(entered)[j] by {
                    if j == before.len() {
                        if before[i] == entered {
                            assert(before.contains(entered));
                        }
                    }
                }
            }
            self.items = items;
            true
        }
    }

    /// The set of the given items, entered in their order: of items that
    /// are the same the first stays.
    pub fn from_items(items: Vec<T>) -> (r: Self)
        ensures
            r.deep_view() == without_repeats(items.deep_view()),
            no_repeats(r.deep_view()),
    {
        let ghost model = items.deep_view();
        let mut out: Distinct<T> = Distinct::new();
        assert(model.take(0) =~= Seq::<T::V>::empty());
        for item in iter: items.into_iter()
            invariant
                iter.seq() == items@,
                model == items.deep_view(),
                out.deep_view() == without_repeats(model.take(iter.index() as int)),
        {
            let ghost k = iter.index() as int;
            proof {
                assert(model.take(k + 1).drop_last() =~= model.take(k));
                assert(model.take(k + 1).last() == item.deep_view());
            }
            out.insert(item);
        }
        proof {
            assert(model.take(model.len() as int) =~= model);
            lemma_without_repeats(model);
        }
        out
    }

    /// Gives the elements up, in order.
    pub fn into_items(self) -> (items: Vec<T>)
        ensures
            items.deep_view() == self.deep_view(),
            no_repeats(self.deep_view()),
    {
        proof {
            use_type_invariant(&self);
        }
        self.items
    }
}

impl<T: IntoJs + Same> IntoJs for Distinct<T> {
    open spec fn encoded(model: Seq<T::V>) -> Result<Tree, ErrorModel> {
        <Vec<T> as IntoJs>::encoded(model)
    }

    fn into_js(self) -> (r: Result<Datum, Error>) {
        self.into_items().into_js()
    }
}

impl<T: FromJs + Same> FromJs for Distinct<T> {
    open spec fn decoded(tree: Tree) -> Result<Seq<T::V>, ErrorModel> {
        match <Vec<T> as FromJs>::decoded(tree) {
            Ok(items) => Ok(without_repeats(items)),
            Err(e) => Err(e),
        }
    }

    open spec fn reach() -> Option<nat> {
        one_more(T::reach())
    }

    fn from_js(value: &Datum) -> (r: Result<Self, Error>) {
        match Vec::<T>::from_js(value) {
            Ok(items) => Ok(Distinct::from_items(items)),
            Err(e) => Err(e),
        }
    }

    fn levels() -> (n: Option<usize>) {
        one_more_level(T::levels())
    }

    proof fn lemma_reach(tree: Tree, levels: nat) {
        <Vec<T> as FromJs>::lemma_reach(tree, levels);
    }
}

/// A set survives the round trip through an engine array, element by
/// element and in order, if no two of its elements are the same and each
/// survives the round trip.
pub proof fn lemma_distinct_round_trips<T: IntoJs + FromJs + Same>(items: Seq<<T as DeepView>::V>)
    requires
        no_repeats(items),
        forall|i: int| 0 <= i < items.len() ==> round_trips::<T>(#[trigger] items[i]),
    ensures
        round_trips::<Distinct<T>>(items),
{
    lemma_vec_round_trips::<T>(items);
    lemma_without_repeats_keeps_distinct(items);
}

/// The entries of a record whose values all survive the round trip are
/// laid out one for one: each key as it is, with the tree of its value.
pub proof fn lemma_encode_entries_shape<T: IntoJs + FromJs>(
    model: Seq<(Seq<char>, <T as DeepView>::V)>,
)
    requires
        forall|i: int| 0 <= i < model.len() ==> round_trips::<T>((#[trigger] model[i]).1),
    ensures
        encode_entries::<T>(model) is Ok,
        encode_entries::<T>(model)->Ok_0.len() == model.len(),
        forall|i: int|
            0 <= i < model.len() ==> {
                &&& (#[trigger] encode_entries::<T>(model)->Ok_0[i]).0 == model[i].0
                &&& T::encoded(model[i].1) == Ok::<Tree, ErrorModel>(
                    encode_entries::<T>(model)->Ok_0[i].1,
                )
            },
    decreases model.len(),
{
    if model.len() > 0 {
        let front = model.drop_last();
        assert forall|i: int| 0 <= i < front.len() implies round_trips::<T>(
            (#[trigger] front[i]).1,
        ) by {
            assert(front[i] == model[i]);
        }
        lemma_encode_entries_shape::<T>(front);
        assert(round_trips::<T>(model[model.len() - 1].1));
        let done = encode_entries::<T>(front)->Ok_0;
        let whole = encode_entries::<T>(model)->Ok_0;
        assert forall|i: int| 0 <= i < model.len() implies {
            &&& (#[trigger] whole[i]).0 == model[i].0
            &&& T::encoded(model[i].1) == Ok::<Tree, ErrorModel>(whole[i].1)
        } by {
            if i < front.len() {
                assert(whole[i] == done[i]);
                assert(front[i] == model[i]);
            }
        }
    }
}

/// Reading the first `k` keys of the object that a record was laid out as
/// gives the first `k` entries of the record.
proof fn lemma_decode_entries_prefix<T: IntoJs + FromJs>(
    model: Seq<(Seq<char>, <T as DeepView>::V)>,
    k: int,
)
    requires
        0 <= k <= model.len(),
        forall|i: int| 0 <= i < model.len() ==> round_trips::<T>((#[trigger] model[i]).1),
        forall|a: int, b: int| 0 <= a < b < model.len() ==> model[a].0 != model[b].0,
    ensures
        encode_entries::<T>(model) is Ok,
        decode_entries::<T>(
            Tree::Object(encode_entries::<T>(model)->Ok_0).keys().take(k),
            Tree::Object(encode_entries::<T>(model)->Ok_0),
        ) == Ok::<Seq<(Seq<char>, <T as DeepView>::V)>, ErrorModel>(model.take(k)),
    decreases k,
{
    lemma_encode_entries_shape::<T>(model);
    let entries = encode_entries::<T>(model)->Ok_0;
    let tree = Tree::Object(entries);
    let keys = tree.keys();
    if k == 0 {
        assert(keys.take(0) =~= Seq::<Seq<char>>::empty());
        assert(model.take(0) =~= Seq::<(Seq<char>, <T as DeepView>::V)>::empty());
    } else {
        lemma_decode_entries_prefix::<T>(model, k - 1);
        assert(keys.take(k).drop_last() =~= keys.take(k - 1));
        assert(keys.take(k).last() == entries[k - 1].0);
        assert forall|a: int, b: int| 0 <= a < b < entries.len() implies entries[a].0
            != entries[b].0 by {
            assert(entries[a].0 == model[a].0);
            assert(entries[b].0 == model[b].0);
        }
        lemma_lookup_distinct(entries, k - 1);
        assert(tree.get(entries[k - 1].0) == entries[k - 1].1);
        assert(round_trips::<T>(model[k - 1].1));
        assert(model.take(k - 1).push(model[k - 1]) =~= model.take(k));
    }
}

/// A record survives the round trip through an engine object, entry by
/// entry and in order, if no two of its keys are equal and each of its values
/// survives the round trip.
pub proof fn lemma_record_round_trips<T: IntoJs + FromJs>(
    model: Seq<(Seq<char>, <T as DeepView>::V)>,
)
    requires
        forall|i: int| 0 <= i < model.len() ==> round_trips::<T>((#[trigger] model[i]).1),
        forall|a: int, b: int| 0 <= a < b < model.len() ==> model[a].0 != model[b].0,
    ensures
        round_trips::<Record<T>>(model),
{
    lemma_encode_entries_shape::<T>(model);
    lemma_decode_entries_prefix::<T>(model, model.len() as int);
    let entries = encode_entries::<T>(model)->Ok_0;
    let keys = Tree::Object(entries).keys();
    assert(keys.take(model.len() as int) =~= keys);
    assert(model.take(model.len() as int) =~= model);
}

} // verus!
