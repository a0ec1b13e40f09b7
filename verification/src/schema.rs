//! How aggregate native types are laid out as engine data.
//!
//! A struct or an enum is described by its shape: the names of its variants,
//! and for each variant or struct the form of its fields. From the shape
//! follows the layout: named fields become an object keyed by field name, a
//! single unnamed field stands for itself, several unnamed fields become an
//! array, no fields become `null`; a variant without fields becomes its name
//! as a string, and any other variant an object with its name as the only
//! key.

use vstd::prelude::*;
use vstd::string::StringExecFns;
use crate::convert::{outcome_model, type_error};
use crate::datum::{lemma_lookup_distinct, lookup, Datum, Tree};
use crate::error::{Error, ErrorModel};
use crate::text::{decimal, decimal_text};
use crate::value::ValueKind;

verus! {

/// The form of the fields of a struct or of a variant.
#[derive(Debug)]
pub enum Fields {
    /// No fields.
    Unit,
    /// This many fields without names.
    Unnamed(usize),
    /// Fields with these names.
    Named(Vec<String>),
}

/// The mathematical content of [`Fields`].
pub enum FieldsModel {
    Unit,
    Unnamed(nat),
    Named(Seq<Seq<char>>),
}

impl View for Fields {
    type V = FieldsModel;

    open spec fn view(&self) -> FieldsModel {
        match self {
            Fields::Unit => FieldsModel::Unit,
            Fields::Unnamed(n) => FieldsModel::Unnamed(*n as nat),
            Fields::Named(names) => FieldsModel::Named(names.deep_view()),
        }
    }
}

impl DeepView for Fields {
    type V = FieldsModel;

    open spec fn deep_view(&self) -> FieldsModel {
        self@
    }
}

impl FieldsModel {
    /// How many fields there are.
    pub open spec fn arity(self) -> nat {
        match self {
            FieldsModel::Unit => 0,
            FieldsModel::Unnamed(n) => n,
            FieldsModel::Named(names) => names.len(),
        }
    }

    /// Whether no two fields have one name.
    pub open spec fn distinct(self) -> bool {
        match self {
            FieldsModel::Named(names) => forall|i: int, j: int|
                0 <= i < j < names.len() ==> names[i] != names[j],
            _ => true,
        }
    }
}

/// The message for values that are not as many as the fields they are for.
pub open spec fn wrong_count_text() -> Seq<char> {
    "wrong number of field values"@
}

/// The message for a variant index that the enum does not have.
pub open spec fn no_variant_text() -> Seq<char> {
    "no such variant"@
}

/// The message for a variant name that the enum does not have.
pub open spec fn unknown_variant_text(name: Seq<char>) -> Seq<char> {
    "unknown variant: "@ + name
}

/// The message for an object that has not exactly one key.
pub open spec fn key_count_text(count: nat) -> Seq<char> {
    "expected object with exactly 1 key for enum, got "@ + decimal_text(count)
}

/// The tree of the field values `values` under the layout of `fields`.
pub open spec fn fields_encoded(fields: FieldsModel, values: Seq<Tree>) -> Result<
    Tree,
    ErrorModel,
> {
    if values.len() != fields.arity() {
        Err(ErrorModel::ConversionError(wrong_count_text()))
    } else {
        match fields {
            FieldsModel::Unit => Ok(Tree::Null),
            FieldsModel::Unnamed(n) => if n == 1 {
                Ok(values[0])
            } else {
                Ok(Tree::Array(values))
            },
            FieldsModel::Named(names) => Ok(
                Tree::Object(Seq::new(names.len(), |i: int| (names[i], values[i]))),
            ),
        }
    }
}

/// The field values that `tree` holds under the layout of `fields`. A field
/// that the tree does not hold reads as `undefined`.
pub open spec fn fields_decoded(fields: FieldsModel, tree: Tree) -> Result<
    Seq<Tree>,
    ErrorModel,
> {
    match fields {
        FieldsModel::Unit => Ok(Seq::<Tree>::empty()),
        FieldsModel::Unnamed(n) => if n == 1 {
            Ok(seq![tree])
        } else if tree is Array {
            Ok(Seq::new(n, |i: int| tree.at(i)))
        } else {
            Err(type_error("array"@, tree))
        },
        FieldsModel::Named(names) => if tree.kind() == ValueKind::Object {
            Ok(Seq::new(names.len(), |i: int| tree.get(names[i])))
        } else {
            Err(type_error("object"@, tree))
        },
    }
}

impl Fields {
    /// How many fields there are.
    pub fn arity(&self) -> (n: usize)
        ensures
            n == self@.arity(),
    {
        match self {
            Fields::Unit => 0,
            Fields::Unnamed(n) => *n,
            Fields::Named(names) => {
                assert(names.deep_view().len() == names@.len());
                names.len()
            },
        }
    }

    /// Lays the field values out as engine data. Values that are not as many
    /// as the fields are refused.
    pub fn encode(&self, values: Vec<Datum>) -> (r: Result<Datum, Error>)
        ensures
            outcome_model(r) == fields_encoded(self@, values.deep_view()),
    {
        let ghost model = values.deep_view();
        let mut values = values;
        assert(model.len() == values@.len());
        if values.len() != self.arity() {
            return Err(Error::ConversionError(String::from_str("wrong number of field values")));
        }
        match self {
            Fields::Unit => Ok(Datum::Null),
            Fields::Unnamed(n) => {
                if *n == 1 {
                    Ok(values.remove(0))
                } else {
                    let d = Datum::Array(values);
                    proof {
                        Datum::lemma_array_view(values);
                        assert(d@->Array_0 =~= model);
                    }
                    Ok(d)
                }
            },
            Fields::Named(names) => {
                let ghost keys = names.deep_view();
                let mut out: Vec<(String, Datum)> = Vec::new();
                for value in iter: values.into_iter()
                    invariant
                        iter.seq() == values@,
                        model == values.deep_view(),
                        keys == names.deep_view(),
                        values@.len() == names@.len(),
                        out@.len() == iter.index(),
                        forall|j: int|
                            0 <= j < out@.len() ==> out@[j].0@ == keys[j] && out@[j].1@
                                == model[j],
                {
                    let ghost k = iter.index() as int;
                    assert(model[k] == value@);
                    assert(keys[k] == names@[k]@);
                    out.push((names[out.len()].clone(), value));
                }
                let d = Datum::Object(out);
                proof {
                    Datum::lemma_object_view(out);
                    assert(d@->Object_0 =~= Seq::new(keys.len(), |i: int| (keys[i], model[i])));
                }
                Ok(d)
            },
        }
    }

    /// Reads the field values out of engine data. The data is left as it is.
    pub fn decode(&self, value: &Datum) -> (r: Result<Vec<Datum>, Error>)
        ensures
            outcome_model(r) == fields_decoded(self@, value@),
    {
        let mut out: Vec<Datum> = Vec::new();
        match self {
            Fields::Unit => {
                assert(out.deep_view() =~= Seq::<Tree>::empty());
                Ok(out)
            },
            Fields::Unnamed(n) => {
                if *n == 1 {
                    out.push(value.duplicate());
                    assert(out.deep_view() =~= seq![value@]);
                    Ok(out)
                } else {
                    match value {
                        Datum::Array(_) => {},
                        _ => {
                            return Err(
                                Error::TypeError { expected: "array", got: value.kind().name() },
                            );
                        },
                    }
                    let mut i: usize = 0;
                    while i < *n
                        invariant
                            i <= *n,
                            out@.len() == i,
                            forall|j: int| 0 <= j < i ==> out@[j]@ == value@.at(j),
                        decreases *n - i,
                    {
                        out.push(value.at(i));
                        i += 1;
                    }
                    assert(out.deep_view() =~= Seq::new(*n as nat, |i: int| value@.at(i)));
                    Ok(out)
                }
            },
            Fields::Named(names) => {
                match value.kind() {
                    ValueKind::Object => {},
                    _ => {
                        return Err(
                            Error::TypeError { expected: "object", got: value.kind().name() },
                        );
                    },
                }
                let ghost keys = names.deep_view();
                let mut i: usize = 0;
                while i < names.len()
                    invariant
                        i <= names.len(),
                        keys == names.deep_view(),
                        out@.len() == i,
                        forall|j: int| 0 <= j < i ==> out@[j]@ == value@.get(keys[j]),
                    decreases names.len() - i,
                {
                    assert(keys[i as int] == names@[i as int]@);
                    out.push(value.get(&names[i]));
                    i += 1;
                }
                assert(out.deep_view() =~= Seq::new(keys.len(), |i: int| value@.get(keys[i])));
                Ok(out)
            },
        }
    }
}

/// One variant of an enum: its name and the form of its fields.
#[derive(Debug)]
pub struct Variant {
    pub name: String,
    pub fields: Fields,
}

/// The mathematical content of a [`Variant`].
pub struct VariantModel {
    pub name: Seq<char>,
    pub fields: FieldsModel,
}

impl View for Variant {
    type V = VariantModel;

    open spec fn view(&self) -> VariantModel {
        VariantModel { name: self.name@, fields: self.fields@ }
    }
}

impl DeepView for Variant {
    type V = VariantModel;

    open spec fn deep_view(&self) -> VariantModel {
        self@
    }
}

/// Whether the variant is looked for among strings (`unit`) or among
/// objects, and has the name `name`.
pub open spec fn variant_matches(variant: VariantModel, name: Seq<char>, unit: bool) -> bool {
    (variant.fields is Unit) == unit && variant.name == name
}

/// The index of the first variant from `from` on that matches.
pub open spec fn find_variant(
    variants: Seq<VariantModel>,
    name: Seq<char>,
    unit: bool,
    from: int,
) -> Option<int>
    decreases variants.len() - from,
{
    if from < 0 || from >= variants.len() {
        None
    } else if variant_matches(variants[from], name, unit) {
        Some(from)
    } else {
        find_variant(variants, name, unit, from + 1)
    }
}

/// Whether the enum has a variant without fields (`unit`), or one with
/// fields.
pub open spec fn has_variant(variants: Seq<VariantModel>, unit: bool) -> bool {
    exists|i: int| 0 <= i < variants.len() && (#[trigger] variants[i].fields is Unit) == unit
}

/// Whether no two variants have one name.
pub open spec fn distinct_names(variants: Seq<VariantModel>) -> bool {
    forall|i: int, j: int| 0 <= i < j < variants.len() ==> variants[i].name != variants[j].name
}

/// The tree of the variant at `index` with the field values `values`: the
/// variant's name as a string if it has no fields, else an object whose only
/// key is the variant's name and whose value is the layout of the fields.
pub open spec fn enum_encoded(variants: Seq<VariantModel>, index: int, values: Seq<Tree>) -> Result<
    Tree,
    ErrorModel,
> {
    if index < 0 || index >= variants.len() {
        Err(ErrorModel::ConversionError(no_variant_text()))
    } else {
        match fields_encoded(variants[index].fields, values) {
            Err(e) => Err(e),
            Ok(payload) => if variants[index].fields is Unit {
                Ok(Tree::String(variants[index].name))
            } else {
                Ok(Tree::Object(seq![(variants[index].name, payload)]))
            },
        }
    }
}

/// The variant that `tree` holds, by its index, and its field values.
///
/// A string is looked up among the variants without fields, if the enum has
/// any; an object among the others, if the enum has any. A tree of another
/// kind is a type error. A name that is not found, and an object that has
/// not exactly one key, is a conversion error.
pub open spec fn enum_decoded(variants: Seq<VariantModel>, tree: Tree) -> Result<
    (int, Seq<Tree>),
    ErrorModel,
> {
    if tree is String && has_variant(variants, true) {
        let name = tree->String_0;
        match find_variant(variants, name, true, 0) {
            Some(i) => Ok((i, Seq::<Tree>::empty())),
            None => Err(ErrorModel::ConversionError(unknown_variant_text(name))),
        }
    } else if tree.kind() == ValueKind::Object && has_variant(variants, false) {
        if tree.keys().len() != 1 {
            Err(ErrorModel::ConversionError(key_count_text(tree.keys().len())))
        } else {
            let name = tree.keys()[0];
            match find_variant(variants, name, false, 0) {
                Some(i) => match fields_decoded(variants[i].fields, tree.get(name)) {
                    Ok(values) => Ok((i, values)),
                    Err(e) => Err(e),
                },
                None => Err(ErrorModel::ConversionError(unknown_variant_text(name))),
            }
        }
    } else {
        Err(type_error("string or object (enum)"@, tree))
    }
}

/// Whether the enum has a variant without fields (`unit`), or one with
/// fields.
fn any_variant(variants: &Vec<Variant>, unit: bool) -> (b: bool)
    ensures
        b == has_variant(variants.deep_view(), unit),
{
    let ghost model = variants.deep_view();
    let mut i: usize = 0;
    while i < variants.len()
        invariant
            i <= variants.len(),
            model == variants.deep_view(),
            forall|j: int| 0 <= j < i ==> (#[trigger] model[j].fields is Unit) != unit,
        decreases variants.len() - i,
    {
        assert(model[i as int] == variants@[i as int]@);
        let is_unit = matches!(variants[i].fields, Fields::Unit);
        if is_unit == unit {
            assert((model[i as int].fields is Unit) == unit);
            return true;
        }
        i += 1;
    }
    false
}

/// The index of the first variant that matches.
fn locate(variants: &Vec<Variant>, name: &String, unit: bool) -> (r: Option<usize>)
    ensures
        match r {
            Some(i) => find_variant(variants.deep_view(), name@, unit, 0) == Some(i as int) && i
                < variants@.len(),
            None => find_variant(variants.deep_view(), name@, unit, 0) is None,
        },
{
    let ghost model = variants.deep_view();
    let mut i: usize = 0;
    while i < variants.len()
        invariant
            i <= variants.len(),
            model == variants.deep_view(),
            find_variant(model, name@, unit, 0) == find_variant(model, name@, unit, i as int),
        decreases variants.len() - i,
    {
        assert(model[i as int] == variants@[i as int]@);
        let is_unit = matches!(variants[i].fields, Fields::Unit);
        if is_unit == unit && variants[i].name == *name {
            return Some(i);
        }
        i += 1;
    }
    None
}

/// Lays the variant at `index` out as engine data, with `values` for its
/// fields. An index that the enum does not have is refused, and so are
/// values that are not as many as the variant's fields.
pub fn encode_enum(variants: &Vec<Variant>, index: usize, values: Vec<Datum>) -> (r: Result<
    Datum,
    Error,
>)
    ensures
        outcome_model(r) == enum_encoded(variants.deep_view(), index as int, values.deep_view()),
{
    if index >= variants.len() {
        return Err(Error::ConversionError(String::from_str("no such variant")));
    }
    let variant = &variants[index];
    assert(variants.deep_view()[index as int] == variant@);
    match variant.fields.encode(values) {
        Err(e) => Err(e),
        Ok(payload) => {
            match variant.fields {
                Fields::Unit => Ok(Datum::String(variant.name.clone())),
                _ => {
                    let mut entries: Vec<(String, Datum)> = Vec::new();
                    entries.push((variant.name.clone(), payload));
                    let d = Datum::Object(entries);
                    proof {
                        Datum::lemma_object_view(entries);
                        assert(d@->Object_0 =~= seq![(variant.name@, payload@)]);
                    }
                    Ok(d)
                },
            }
        },
    }
}

/// Reads a variant out of engine data: its index in the enum, and its field
/// values. The data is left as it is.
pub fn decode_enum(variants: &Vec<Variant>, value: &Datum) -> (r: Result<(usize, Vec<Datum>), Error>)
    ensures
        match r {
            Ok((index, values)) => enum_decoded(variants.deep_view(), value@) == Ok::<
                (int, Seq<Tree>),
                ErrorModel,
            >((index as int, values.deep_view())) && index < variants@.len(),
            Err(e) => enum_decoded(variants.deep_view(), value@) == Err::<
                (int, Seq<Tree>),
                ErrorModel,
            >(e@),
        },
{
    let has_unit = any_variant(variants, true);
    let has_data = any_variant(variants, false);
    match value {
        Datum::String(name) => {
            if has_unit {
                return match locate(variants, name, true) {
                    Some(i) => {
                        let values: Vec<Datum> = Vec::new();
                        assert(values.deep_view() =~= Seq::<Tree>::empty());
                        Ok((i, values))
                    },
                    None => Err(
                        Error::ConversionError(
                            String::from_str("unknown variant: ").concat(name.as_str()),
                        ),
                    ),
                };
            }
        },
        _ => {},
    }
    let is_object = matches!(value.kind(), ValueKind::Object);
    if is_object && has_data {
        let keys = value.keys();
        assert(keys.deep_view().len() == keys@.len());
        if keys.len() != 1 {
            return Err(
                Error::ConversionError(
                    String::from_str("expected object with exactly 1 key for enum, got ").concat(
                        decimal(keys.len()).as_str(),
                    ),
                ),
            );
        }
        let name = &keys[0];
        assert(keys.deep_view()[0] == name@);
        match locate(variants, name, false) {
            Some(i) => {
                assert(variants.deep_view()[i as int] == variants@[i as int]@);
                let payload = value.get(name);
                match variants[i].fields.decode(&payload) {
                    Ok(values) => Ok((i, values)),
                    Err(e) => Err(e),
                }
            },
            None => Err(
                Error::ConversionError(String::from_str("unknown variant: ").concat(name.as_str())),
            ),
        }
    } else {
        Err(Error::TypeError { expected: "string or object (enum)", got: value.kind().name() })
    }
}

/// Field values that are laid out as engine data and read back are the
/// values they were, for every form of fields: the layout loses nothing.
pub proof fn lemma_fields_round_trip(fields: FieldsModel, values: Seq<Tree>)
    requires
        values.len() == fields.arity(),
        fields.distinct(),
    ensures
        fields_encoded(fields, values) is Ok,
        fields_decoded(fields, fields_encoded(fields, values)->Ok_0) == Ok::<
            Seq<Tree>,
            ErrorModel,
        >(values),
{
    let tree = fields_encoded(fields, values)->Ok_0;
    match fields {
        FieldsModel::Unit => {
            assert(values =~= Seq::<Tree>::empty());
        },
        FieldsModel::Unnamed(n) => {
            if n == 1 {
                assert(values =~= seq![values[0]]);
            } else {
                assert(Seq::new(n, |i: int| tree.at(i)) =~= values);
            }
        },
        FieldsModel::Named(names) => {
            let entries = Seq::new(names.len(), |i: int| (names[i], values[i]));
            assert(tree == Tree::Object(entries));
            assert forall|i: int| 0 <= i < names.len() implies tree.get(names[i])
                == values[i] by {
                lemma_lookup_distinct(entries, i);
            }
            assert(Seq::new(names.len(), |i: int| tree.get(names[i])) =~= values);
        },
    }
}

/// Among variants whose names are all different, a name is found at the
/// index of the variant that has it.
pub proof fn lemma_find_variant_distinct(variants: Seq<VariantModel>, index: int, from: int)
    requires
        0 <= from <= index < variants.len(),
        distinct_names(variants),
    ensures
        find_variant(variants, variants[index].name, variants[index].fields is Unit, from) == Some(
            index,
        ),
    decreases index - from,
{
    if from < index {
        assert(variants[from].name != variants[index].name);
        lemma_find_variant_distinct(variants, index, from + 1);
    }
}

/// A name that no variant has is not found.
pub proof fn lemma_find_variant_absent(
    variants: Seq<VariantModel>,
    name: Seq<char>,
    unit: bool,
    from: int,
)
    requires
        0 <= from,
        forall|i: int| 0 <= i < variants.len() ==> (#[trigger] variants[i]).name != name,
    ensures
        find_variant(variants, name, unit, from) is None,
    decreases variants.len() - from,
{
    if from < variants.len() {
        lemma_find_variant_absent(variants, name, unit, from + 1);
    }
}

/// A variant that is laid out as engine data and read back is the variant
/// it was, with the field values it had, provided that no two variants and no
/// two fields of the variant share a name.
///
/// On the way, a variant without fields is a plain string that is the
/// variant's name, and any other variant is an object with exactly one key,
/// the variant's name.
pub proof fn lemma_enum_round_trip(variants: Seq<VariantModel>, index: int, values: Seq<Tree>)
    requires
        0 <= index < variants.len(),
        distinct_names(variants),
        variants[index].fields.distinct(),
        values.len() == variants[index].fields.arity(),
    ensures
        enum_encoded(variants, index, values) is Ok,
        variants[index].fields is Unit ==> enum_encoded(variants, index, values)->Ok_0
            == Tree::String(variants[index].name),
        !(variants[index].fields is Unit) ==> {
            &&& enum_encoded(variants, index, values)->Ok_0 is Object
            &&& enum_encoded(variants, index, values)->Ok_0.keys() == seq![variants[index].name]
        },
        enum_decoded(variants, enum_encoded(variants, index, values)->Ok_0) == Ok::<
            (int, Seq<Tree>),
            ErrorModel,
        >((index, values)),
{
    let variant = variants[index];
    let tree = enum_encoded(variants, index, values)->Ok_0;
    lemma_fields_round_trip(variant.fields, values);
    lemma_find_variant_distinct(variants, index, 0);
    if variant.fields is Unit {
        assert(has_variant(variants, true));
        assert(values =~= Seq::<Tree>::empty());
    } else {
        let payload = fields_encoded(variant.fields, values)->Ok_0;
        let entries = seq![(variant.name, payload)];
        assert(tree == Tree::Object(entries));
        assert(has_variant(variants, false));
        assert(tree.keys() =~= seq![variant.name]);
        assert(lookup(entries, variant.name) == payload);
    }
}

/// For an enum all of whose variants are without fields, a string that is
/// not the name of one of them is refused with a conversion error. The name
/// must match exactly; there is no default.
pub proof fn lemma_unknown_name_refused(variants: Seq<VariantModel>, name: Seq<char>)
    requires
        variants.len() > 0,
        forall|i: int| 0 <= i < variants.len() ==> (#[trigger] variants[i]).fields is Unit,
        forall|i: int| 0 <= i < variants.len() ==> (#[trigger] variants[i]).name != name,
    ensures
        enum_decoded(variants, Tree::String(name)) == Err::<(int, Seq<Tree>), ErrorModel>(
            ErrorModel::ConversionError(unknown_variant_text(name)),
        ),
{
    assert(variants[0].fields is Unit);
    assert(has_variant(variants, true));
    lemma_find_variant_absent(variants, name, true, 0);
}

/// For an enum that has a variant with fields, an object with no key, or
/// with two keys or more, is refused with a conversion error.
pub proof fn lemma_key_count_refused(
    variants: Seq<VariantModel>,
    entries: Seq<(Seq<char>, Tree)>,
)
    requires
        has_variant(variants, false),
        entries.len() != 1,
    ensures
        enum_decoded(variants, Tree::Object(entries)) == Err::<(int, Seq<Tree>), ErrorModel>(
            ErrorModel::ConversionError(key_count_text(entries.len())),
        ),
{
}

} // verus!
