//! Engine data in materialised form.
//!
//! A [`Datum`] is a tree of plain values that mirrors one engine value. The
//! embedding shell builds the engine value that a tree describes, and reads
//! an engine value out into a tree.

use vstd::prelude::*;
use crate::number::Number;
use crate::text::{decimal, decimal_text};
use crate::value::{RawValue, ValueKind, KIND_BOOLEAN, KIND_NULL, KIND_NUMBER, KIND_UNDEFINED};

verus! {

/// How many levels of arrays and objects are looked into where the whole of
/// a value is asked for. A value may contain itself, so the whole has to
/// end somewhere.
pub const DEPTH_LIMIT: usize = 256;

/// One engine value in materialised form.
#[derive(Debug, PartialEq)]
pub enum Datum {
    Undefined,
    Null,
    Boolean(bool),
    Number(Number),
    String(String),
    /// An array, by its elements in index order.
    Array(Vec<Datum>),
    /// Any other object, by its own enumerable string-keyed properties in
    /// the order in which the engine lists them.
    Object(Vec<(String, Datum)>),
    /// A symbol. What it denotes stays in the engine.
    Symbol,
    /// A big integer. Its digits stay in the engine.
    BigInt,
    /// An object that was not looked into: what it holds stays in the
    /// engine, and it lists no property.
    Unread,
}

/// The mathematical content of a [`Datum`].
pub enum Tree {
    Undefined,
    Null,
    Boolean(bool),
    Number(u64),
    String(Seq<char>),
    Array(Seq<Tree>),
    Object(Seq<(Seq<char>, Tree)>),
    Symbol,
    BigInt,
    Unread,
}

impl View for Datum {
    type V = Tree;

    open spec fn view(&self) -> Tree {
        self.tree()
    }
}

impl Clone for Datum {
    fn clone(&self) -> (d: Datum)
        ensures
            d@ == self@,
    {
        self.duplicate()
    }
}

impl DeepView for Datum {
    type V = Tree;

    open spec fn deep_view(&self) -> Tree {
        self@
    }
}

impl Tree {
    /// The kind of the engine value that the tree mirrors. An array is an
    /// object to the engine.
    pub open spec fn kind(self) -> ValueKind {
        match self {
            Tree::Undefined => ValueKind::Undefined,
            Tree::Null => ValueKind::Null,
            Tree::Boolean(_) => ValueKind::Boolean,
            Tree::Number(_) => ValueKind::Number,
            Tree::String(_) => ValueKind::String,
            Tree::Array(_) => ValueKind::Object,
            Tree::Object(_) => ValueKind::Object,
            Tree::Symbol => ValueKind::Symbol,
            Tree::BigInt => ValueKind::BigInt,
            Tree::Unread => ValueKind::Object,
        }
    }
}

/// The value of the first entry with the key `key`; `undefined` where there
/// is none.
pub open spec fn lookup(entries: Seq<(Seq<char>, Tree)>, key: Seq<char>) -> Tree
    decreases entries.len(),
{
    if entries.len() == 0 {
        Tree::Undefined
    } else if entries.first().0 == key {
        entries.first().1
    } else {
        lookup(entries.drop_first(), key)
    }
}

/// The element whose index, from `from` on, has the numeral `key`;
/// `undefined` where there is none.
pub open spec fn lookup_index(items: Seq<Tree>, key: Seq<char>, from: int) -> Tree
    decreases items.len() - from,
{
    if from < 0 || from >= items.len() {
        Tree::Undefined
    } else if decimal_text(from as nat) == key {
        items[from]
    } else {
        lookup_index(items, key, from + 1)
    }
}

impl Tree {
    /// The keys of the properties that the tree lists, in order: those of an
    /// object's entries, and for an array the numerals of its indices.
    pub open spec fn keys(self) -> Seq<Seq<char>> {
        match self {
            Tree::Object(entries) => Seq::new(entries.len(), |i: int| entries[i].0),
            Tree::Array(items) => Seq::new(items.len(), |i: int| decimal_text(i as nat)),
            _ => Seq::<Seq<char>>::empty(),
        }
    }

    /// The value of the property `key` among those that the tree lists;
    /// `undefined` where it lists none of that name.
    pub open spec fn get(self, key: Seq<char>) -> Tree {
        match self {
            Tree::Object(entries) => lookup(entries, key),
            Tree::Array(items) => lookup_index(items, key, 0),
            _ => Tree::Undefined,
        }
    }

    /// The tree as it is read out when only `reach` levels of arrays and
    /// objects are looked into: an array or object below that is left
    /// unread.
    pub open spec fn cut(self, reach: nat) -> Tree
        decreases reach,
    {
        match self {
            Tree::Array(items) => if reach == 0 {
                Tree::Unread
            } else {
                Tree::Array(Seq::new(items.len(), |i: int| items[i].cut((reach - 1) as nat)))
            },
            Tree::Object(entries) => if reach == 0 {
                Tree::Unread
            } else {
                Tree::Object(
                    Seq::new(
                        entries.len(),
                        |i: int| (entries[i].0, entries[i].1.cut((reach - 1) as nat)),
                    ),
                )
            },
            _ => self,
        }
    }

    /// The element at `index` of an array; `undefined` beyond its end and
    /// for a tree that is no array.
    pub open spec fn at(self, index: int) -> Tree {
        match self {
            Tree::Array(items) => if 0 <= index < items.len() {
                items[index]
            } else {
                Tree::Undefined
            },
            _ => Tree::Undefined,
        }
    }
}

impl Datum {
    /// The tree that the datum holds.
    pub open spec fn tree(&self) -> Tree
        decreases self,
    {
        match self {
            Datum::Undefined => Tree::Undefined,
            Datum::Null => Tree::Null,
            Datum::Boolean(b) => Tree::Boolean(*b),
            Datum::Number(n) => Tree::Number(n@),
            Datum::String(s) => Tree::String(s@),
            Datum::Array(items) => Tree::Array(
                Seq::new(
                    items@.len(),
                    |i: int|
                        if 0 <= i < items@.len() {
                            items@[i].tree()
                        } else {
                            Tree::Undefined
                        },
                ),
            ),
            Datum::Object(entries) => Tree::Object(
                Seq::new(
                    entries@.len(),
                    |i: int|
                        if 0 <= i < entries@.len() {
                            (entries@[i].0@, entries@[i].1.tree())
                        } else {
                            (Seq::<char>::empty(), Tree::Undefined)
                        },
                ),
            ),
            Datum::Symbol => Tree::Symbol,
            Datum::BigInt => Tree::BigInt,
            Datum::Unread => Tree::Unread,
        }
    }

    /// The kind of the engine value that the datum mirrors.
    pub fn kind(&self) -> (k: ValueKind)
        ensures
            k == self@.kind(),
    {
        match self {
            Datum::Undefined => ValueKind::Undefined,
            Datum::Null => ValueKind::Null,
            Datum::Boolean(_) => ValueKind::Boolean,
            Datum::Number(_) => ValueKind::Number,
            Datum::String(_) => ValueKind::String,
            Datum::Array(_) => ValueKind::Object,
            Datum::Object(_) => ValueKind::Object,
            Datum::Symbol => ValueKind::Symbol,
            Datum::BigInt => ValueKind::BigInt,
            Datum::Unread => ValueKind::Object,
        }
    }

    /// The tree of an array is the array of the trees of its elements.
    pub proof fn lemma_array_view(items: Vec<Datum>)
        ensures
            Datum::Array(items)@ is Array,
            Datum::Array(items)@->Array_0.len() == items@.len(),
            forall|i: int|
                0 <= i < items@.len() ==> (#[trigger] Datum::Array(items)@->Array_0[i])
                    == items@[i]@,
    {
    }

    /// The tree of an object is the list of its keys, each with the tree of
    /// its value.
    pub proof fn lemma_object_view(entries: Vec<(String, Datum)>)
        ensures
            Datum::Object(entries)@ is Object,
            Datum::Object(entries)@->Object_0.len() == entries@.len(),
            forall|i: int|
                0 <= i < entries@.len() ==> (#[trigger] Datum::Object(entries)@->Object_0[i]) == (
                    entries@[i].0@,
                    entries@[i].1@,
                ),
    {
    }

    /// The keys of the properties that the datum lists, in order.
    pub fn keys(&self) -> (keys: Vec<String>)
        ensures
            keys.deep_view() == self@.keys(),
    {
        let mut out: Vec<String> = Vec::new();
        match self {
            Datum::Object(entries) => {
                proof {
                    Datum::lemma_object_view(*entries);
                }
                let mut i: usize = 0;
                while i < entries.len()
                    invariant
                        i <= entries.len(),
                        out@.len() == i,
                        forall|j: int| 0 <= j < i ==> out@[j]@ == entries@[j].0@,
                    decreases entries.len() - i,
                {
                    out.push(entries[i].0.clone());
                    i += 1;
                }
                assert(out.deep_view() =~= self@.keys());
            },
            Datum::Array(items) => {
                proof {
                    Datum::lemma_array_view(*items);
                }
                let mut i: usize = 0;
                while i < items.len()
                    invariant
                        i <= items.len(),
                        out@.len() == i,
                        forall|j: int| 0 <= j < i ==> out@[j]@ == decimal_text(j as nat),
                    decreases items.len() - i,
                {
                    out.push(decimal(i));
                    i += 1;
                }
                assert(out.deep_view() =~= self@.keys());
            },
            _ => {
                assert(out.deep_view() =~= self@.keys());
            },
        }
        out
    }

    /// A copy of the value of the property `key`; `undefined` where the
    /// datum lists no property of that name.
    pub fn get(&self, key: &String) -> (d: Datum)
        ensures
            d@ == self@.get(key@),
    {
        match self {
            Datum::Object(entries) => {
                proof {
                    Datum::lemma_object_view(*entries);
                }
                let ghost all = self@->Object_0;
                let mut i: usize = 0;
                assert(all.skip(0) =~= all);
                while i < entries.len()
                    invariant
                        i <= entries.len(),
                        all.len() == entries@.len(),
                        forall|j: int|
                            0 <= j < entries@.len() ==> all[j] == (
                                entries@[j].0@,
                                entries@[j].1@,
                            ),
                        lookup(all, key@) == lookup(all.skip(i as int), key@),
                        self@ == Tree::Object(all),
                    decreases entries.len() - i,
                {
                    proof {
                        assert(all.skip(i as int).drop_first() =~= all.skip(i + 1));
                        assert(all.skip(i as int).first() == all[i as int]);
                    }
                    if entries[i].0 == *key {
                        return entries[i].1.duplicate();
                    }
                    i += 1;
                }
                Datum::Undefined
            },
            Datum::Array(items) => {
                proof {
                    Datum::lemma_array_view(*items);
                }
                let ghost all = self@->Array_0;
                let mut i: usize = 0;
                while i < items.len()
                    invariant
                        i <= items.len(),
                        all.len() == items@.len(),
                        forall|j: int| 0 <= j < items@.len() ==> all[j] == items@[j]@,
                        lookup_index(all, key@, 0) == lookup_index(all, key@, i as int),
                        self@ == Tree::Array(all),
                    decreases items.len() - i,
                {
                    if decimal(i) == *key {
                        return items[i].duplicate();
                    }
                    i += 1;
                }
                Datum::Undefined
            },
            _ => Datum::Undefined,
        }
    }

    /// A copy of the element at `index` of an array; `undefined` beyond its
    /// end and for a datum that is no array.
    pub fn at(&self, index: usize) -> (d: Datum)
        ensures
            d@ == self@.at(index as int),
    {
        match self {
            Datum::Array(items) => {
                proof {
                    Datum::lemma_array_view(*items);
                }
                if index < items.len() {
                    items[index].duplicate()
                } else {
                    Datum::Undefined
                }
            },
            _ => Datum::Undefined,
        }
    }

    /// A copy of the datum, as deep as the datum goes.
    pub fn duplicate(&self) -> (d: Datum)
        ensures
            d@ == self@,
        decreases self,
    {
        match self {
            Datum::Undefined => Datum::Undefined,
            Datum::Null => Datum::Null,
            Datum::Boolean(b) => Datum::Boolean(*b),
            Datum::Number(n) => Datum::Number(*n),
            Datum::String(s) => Datum::String(s.clone()),
            Datum::Array(items) => {
                let mut out: Vec<Datum> = Vec::new();
                let mut i: usize = 0;
                while i < items.len()
                    invariant
                        i <= items.len(),
                        *self == Datum::Array(*items),
                        out@.len() == i,
                        forall|j: int| 0 <= j < i ==> out@[j]@ == items@[j]@,
                    decreases items.len() - i,
                {
                    proof {
                        assert(self->Array_0 == *items);
                        assert(decreases_to!(*self => self->Array_0));
                        assert(decreases_to!(*items => items@));
                        assert(decreases_to!(items@ => items@[i as int]));
                    }
                    out.push(items[i].duplicate());
                    i += 1;
                }
                let d = Datum::Array(out);
                assert(d@ =~= self@) by {
                    assert(d@->Array_0 =~= self@->Array_0);
                }
                d
            },
            Datum::Object(entries) => {
                let mut out: Vec<(String, Datum)> = Vec::new();
                let mut i: usize = 0;
                while i < entries.len()
                    invariant
                        i <= entries.len(),
                        *self == Datum::Object(*entries),
                        out@.len() == i,
                        forall|j: int|
                            0 <= j < i ==> out@[j].0@ == entries@[j].0@ && out@[j].1@
                                == entries@[j].1@,
                    decreases entries.len() - i,
                {
                    proof {
                        assert(self->Object_0 == *entries);
                        assert(decreases_to!(*self => self->Object_0));
                        assert(decreases_to!(*entries => entries@));
                        assert(decreases_to!(entries@ => entries@[i as int]));
                        assert(decreases_to!(entries@[i as int] => entries@[i as int].1));
                    }
                    out.push((entries[i].0.clone(), entries[i].1.duplicate()));
                    i += 1;
                }
                let d = Datum::Object(out);
                assert(d@ =~= self@) by {
                    assert(d@->Object_0 =~= self@->Object_0);
                }
                d
            },
            Datum::Symbol => Datum::Symbol,
            Datum::BigInt => Datum::BigInt,
            Datum::Unread => Datum::Unread,
        }
    }
}

/// How one raw value is read out into engine data.
#[derive(Debug, PartialEq)]
pub enum Reading {
    /// The raw value says it all: this is its datum.
    Leaf(Datum),
    /// The value is a string, whose text the engine holds.
    String,
    /// The value is an object, whose elements or properties the engine
    /// holds.
    Object,
}

/// The mathematical content of a [`Reading`].
pub enum ReadingModel {
    Leaf(Tree),
    String,
    Object,
}

impl View for Reading {
    type V = ReadingModel;

    open spec fn view(&self) -> ReadingModel {
        match self {
            Reading::Leaf(d) => ReadingModel::Leaf(d@),
            Reading::String => ReadingModel::String,
            Reading::Object => ReadingModel::Object,
        }
    }
}

/// What of an object is read out, once the engine has said whether the
/// object is an array.
#[derive(Clone, Copy, Debug, PartialEq, Eq, Structural)]
pub enum Parts {
    /// The elements, by their indices from zero up to the length, each
    /// looked into to this many levels. They make up an array.
    Elements(usize),
    /// The properties that the engine lists by name, in the order in which
    /// it lists them, each looked into to this many levels. They make up an
    /// object.
    Properties(usize),
}

/// What of an object is read out when `reach` levels of arrays and objects
/// are to be looked into: nothing where no level is left; else its elements
/// if it is an array, and its listed properties if it is not, each with one
/// level less.
pub open spec fn parts_model(is_array: bool, reach: usize) -> Option<Parts> {
    if reach == 0 {
        None
    } else if is_array {
        Some(Parts::Elements((reach - 1) as usize))
    } else {
        Some(Parts::Properties((reach - 1) as usize))
    }
}

/// How a raw value is read out when `reach` levels of arrays and objects
/// are to be looked into: by itself if it is of an inline kind or one whose
/// content stays in the engine, and also if it is an object and no level is
/// left; else with the engine's help.
pub open spec fn reading_model(raw: RawValue, reach: usize) -> ReadingModel {
    match raw.spec_value_kind() {
        ValueKind::Undefined => ReadingModel::Leaf(Tree::Undefined),
        ValueKind::Null => ReadingModel::Leaf(Tree::Null),
        ValueKind::Boolean => ReadingModel::Leaf(Tree::Boolean(raw.payload != 0)),
        ValueKind::Number => ReadingModel::Leaf(Tree::Number(raw.payload)),
        ValueKind::Symbol => ReadingModel::Leaf(Tree::Symbol),
        ValueKind::BigInt => ReadingModel::Leaf(Tree::BigInt),
        ValueKind::String => ReadingModel::String,
        ValueKind::Object => if reach == 0 {
            ReadingModel::Leaf(Tree::Unread)
        } else {
            ReadingModel::Object
        },
    }
}

/// The raw value of a tree that needs nothing built in the engine.
pub open spec fn inline_model(tree: Tree) -> Option<RawValue> {
    match tree {
        Tree::Undefined => Some(RawValue { kind: KIND_UNDEFINED, payload: 0 }),
        Tree::Null => Some(RawValue { kind: KIND_NULL, payload: 0 }),
        Tree::Boolean(b) => Some(
            RawValue {
                kind: KIND_BOOLEAN,
                payload: if b {
                    1
                } else {
                    0
                },
            },
        ),
        Tree::Number(bits) => Some(RawValue { kind: KIND_NUMBER, payload: bits }),
        _ => None,
    }
}

impl Datum {
    /// Says how the raw value `raw` is read out when `reach` levels of
    /// arrays and objects are to be looked into, and reads it where that
    /// takes no call into the engine. The elements and properties of an
    /// object are read with one level less.
    pub fn reading(raw: RawValue, reach: usize) -> (r: Reading)
        ensures
            r@ == reading_model(raw, reach),
    {
        match raw.value_kind() {
            ValueKind::Undefined => Reading::Leaf(Datum::Undefined),
            ValueKind::Null => Reading::Leaf(Datum::Null),
            ValueKind::Boolean => Reading::Leaf(Datum::Boolean(raw.payload != 0)),
            ValueKind::Number => Reading::Leaf(Datum::Number(Number::from_bits(raw.payload))),
            ValueKind::Symbol => Reading::Leaf(Datum::Symbol),
            ValueKind::BigInt => Reading::Leaf(Datum::BigInt),
            ValueKind::String => Reading::String,
            ValueKind::Object => if reach == 0 {
                Reading::Leaf(Datum::Unread)
            } else {
                Reading::Object
            },
        }
    }

    /// Says what of an object is read out next, where `is_array` is the
    /// engine's answer to whether the object is an array and `reach` the
    /// number of levels that are to be looked into. Where it is nothing, the
    /// object is left unread.
    pub fn parts(is_array: bool, reach: usize) -> (p: Option<Parts>)
        ensures
            p == parts_model(is_array, reach),
    {
        if reach == 0 {
            None
        } else if is_array {
            Some(Parts::Elements(reach - 1))
        } else {
            Some(Parts::Properties(reach - 1))
        }
    }

    /// An array or object whose parts were each read out as
    /// [`Datum::parts`] says is the array or object itself, read out to that
    /// many levels: the elements in their order, the properties under their
    /// names.
    pub proof fn lemma_parts_make_the_whole(tree: Tree, reach: usize)
        ensures
            tree is Array ==> match parts_model(true, reach) {
                Some(Parts::Elements(below)) => tree.cut(reach as nat) == Tree::Array(
                    Seq::new(
                        tree->Array_0.len(),
                        |i: int| tree->Array_0[i].cut(below as nat),
                    ),
                ),
                Some(Parts::Properties(_)) => false,
                None => tree.cut(reach as nat) == Tree::Unread,
            },
            tree is Object ==> match parts_model(false, reach) {
                Some(Parts::Properties(below)) => tree.cut(reach as nat) == Tree::Object(
                    Seq::new(
                        tree->Object_0.len(),
                        |i: int| (tree->Object_0[i].0, tree->Object_0[i].1.cut(below as nat)),
                    ),
                ),
                Some(Parts::Elements(_)) => false,
                None => tree.cut(reach as nat) == Tree::Unread,
            },
    {
        if reach > 0 {
            let below = (reach - 1) as nat;
            match tree {
                Tree::Array(items) => {
                    assert(tree.cut(reach as nat)->Array_0 =~= Seq::new(
                        items.len(),
                        |i: int| items[i].cut(below),
                    ));
                },
                Tree::Object(entries) => {
                    assert(tree.cut(reach as nat)->Object_0 =~= Seq::new(
                        entries.len(),
                        |i: int| (entries[i].0, entries[i].1.cut(below)),
                    ));
                },
                _ => {},
            }
        }
    }

    /// The raw value of the datum, if it is of an inline kind. A string, an
    /// array and an object have to be built in the engine, and a symbol or a
    /// big integer cannot be built from a description at all.
    pub fn inline(&self) -> (r: Option<RawValue>)
        ensures
            r == inline_model(self@),
            r is Some ==> r->0.is_canonical() && !r->0.spec_is_pointer(),
    {
        match self {
            Datum::Undefined => Some(RawValue { kind: KIND_UNDEFINED, payload: 0 }),
            Datum::Null => Some(RawValue { kind: KIND_NULL, payload: 0 }),
            Datum::Boolean(b) => Some(
                RawValue {
                    kind: KIND_BOOLEAN,
                    payload: if *b {
                        1
                    } else {
                        0
                    },
                },
            ),
            Datum::Number(n) => Some(RawValue { kind: KIND_NUMBER, payload: n.bits() }),
            _ => None,
        }
    }

    /// A datum of an inline kind that is written as a raw value and read
    /// back is the datum it was, however far the reading reaches.
    pub proof fn lemma_inline_round_trip(tree: Tree, reach: usize)
        requires
            inline_model(tree) is Some,
        ensures
            reading_model(inline_model(tree)->0, reach) == ReadingModel::Leaf(tree),
    {
    }
}

/// Among entries whose keys are all different, looking up the key of an
/// entry finds the value of that entry.
pub proof fn lemma_lookup_distinct(entries: Seq<(Seq<char>, Tree)>, i: int)
    requires
        0 <= i < entries.len(),
        forall|a: int, b: int| 0 <= a < b < entries.len() ==> entries[a].0 != entries[b].0,
    ensures
        lookup(entries, entries[i].0) == entries[i].1,
    decreases entries.len(),
{
    if i > 0 {
        let rest = entries.drop_first();
        assert(entries.first().0 != entries[i].0);
        assert(rest[i - 1] == entries[i]);
        assert forall|a: int, b: int| 0 <= a < b < rest.len() implies rest[a].0 != rest[b].0 by {
            assert(rest[a] == entries[a + 1]);
            assert(rest[b] == entries[b + 1]);
        }
        lemma_lookup_distinct(rest, i - 1);
    }
}

/// Looking a property up in entries that were read to a number of levels
/// finds what the property holds, read to that number of levels.
pub proof fn lemma_lookup_cut(entries: Seq<(Seq<char>, Tree)>, key: Seq<char>, levels: nat)
    ensures
        lookup(Seq::new(entries.len(), |i: int| (entries[i].0, entries[i].1.cut(levels))), key)
            == lookup(entries, key).cut(levels),
    decreases entries.len(),
{
    let read = Seq::new(entries.len(), |i: int| (entries[i].0, entries[i].1.cut(levels)));
    if entries.len() > 0 {
        if entries.first().0 != key {
            let rest = entries.drop_first();
            lemma_lookup_cut(rest, key, levels);
            assert(read.drop_first() =~= Seq::new(
                rest.len(),
                |i: int| (rest[i].0, rest[i].1.cut(levels)),
            ));
        }
    }
}

/// Looking an index up in elements that were read to a number of levels
/// finds the element, read to that number of levels.
pub proof fn lemma_lookup_index_cut(items: Seq<Tree>, key: Seq<char>, from: int, levels: nat)
    ensures
        lookup_index(Seq::new(items.len(), |i: int| items[i].cut(levels)), key, from)
            == lookup_index(items, key, from).cut(levels),
    decreases items.len() - from,
{
    if 0 <= from < items.len() {
        if decimal_text(from as nat) != key {
            lemma_lookup_index_cut(items, key, from + 1, levels);
        }
    }
}

/// What a tree lists is what it lists when it is read to one level or more:
/// the keys are the same, and each property is what it was, read to one
/// level less.
pub proof fn lemma_properties_cut(tree: Tree, key: Seq<char>, levels: nat)
    requires
        levels >= 1,
    ensures
        tree.cut(levels).kind() == tree.kind(),
        tree.cut(levels).keys() == tree.keys(),
        tree.cut(levels).get(key) == tree.get(key).cut((levels - 1) as nat),
{
    let below = (levels - 1) as nat;
    match tree {
        Tree::Object(entries) => {
            lemma_lookup_cut(entries, key, below);
            assert(tree.cut(levels)->Object_0 =~= Seq::new(
                entries.len(),
                |i: int| (entries[i].0, entries[i].1.cut(below)),
            ));
            assert(tree.cut(levels).keys() =~= tree.keys());
        },
        Tree::Array(items) => {
            lemma_lookup_index_cut(items, key, 0, below);
            assert(tree.cut(levels)->Array_0 =~= Seq::new(
                items.len(),
                |i: int| items[i].cut(below),
            ));
            assert(tree.cut(levels).keys() =~= tree.keys());
        },
        _ => {},
    }
}

} // verus!
