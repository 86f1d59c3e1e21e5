//! Table schemas, and the shape of the statistics record that is read for a
//! predicate.

use vstd::prelude::*;
use crate::expressions::{names_contain, paths_of, ColumnName, ColumnPath};
use crate::scalars::PrimitiveType;

verus! {

/// The type of a field.
#[derive(Debug, PartialEq, Eq)]
pub enum DataType {
    Primitive(PrimitiveType),
    Struct(Box<StructType>),
}

/// A named field of a record.
#[derive(Debug, PartialEq, Eq)]
pub struct StructField {
    pub name: String,
    pub data_type: DataType,
    pub nullable: bool,
}

/// A record type: named fields in a fixed order.
#[derive(Debug, PartialEq, Eq)]
pub struct StructType {
    pub fields: Vec<StructField>,
}

/// A type as contracts see it.
pub ghost enum TypeView {
    Primitive(PrimitiveType),
    Struct(Seq<FieldView>),
}

/// A field as contracts see it.
pub ghost struct FieldView {
    pub name: Seq<char>,
    pub data_type: TypeView,
    pub nullable: bool,
}

impl DataType {
    /// The type with each name replaced by its view.
    pub open spec fn model(&self) -> TypeView
        decreases self,
    {
        match self {
            DataType::Primitive(p) => TypeView::Primitive(*p),
            DataType::Struct(record) => TypeView::Struct(
                Seq::new(
                    record.fields@.len(),
                    |i: int|
                        if 0 <= i < record.fields.len() {
                            FieldView {
                                name: record.fields[i].name@,
                                data_type: record.fields[i].data_type.model(),
                                nullable: record.fields[i].nullable,
                            }
                        } else {
                            arbitrary()
                        },
                ),
            ),
        }
    }
}

impl View for DataType {
    type V = TypeView;

    open spec fn view(&self) -> TypeView {
        self.model()
    }
}

impl View for StructField {
    type V = FieldView;

    open spec fn view(&self) -> FieldView {
        FieldView { name: self.name@, data_type: self.data_type@, nullable: self.nullable }
    }
}

/// The views of a sequence of fields, in order.
pub open spec fn field_views(fields: Seq<StructField>) -> Seq<FieldView> {
    Seq::new(fields.len(), |i: int| fields[i]@)
}

impl View for StructType {
    type V = Seq<FieldView>;

    open spec fn view(&self) -> Seq<FieldView> {
        field_views(self.fields@)
    }
}

/// Whether a field `name` of primitive type `t` is among the fields.
pub open spec fn has_field_of_type(
    fields: Seq<FieldView>,
    name: Seq<char>,
    t: PrimitiveType,
) -> bool {
    exists|i: int|
        0 <= i < fields.len() && (#[trigger] fields[i]).name == name && fields[i].data_type
            == TypeView::Primitive(t)
}

/// Whether a field `name` of a primitive type is among the fields.
pub open spec fn has_primitive_field(fields: Seq<FieldView>, name: Seq<char>) -> bool {
    exists|i: int|
        0 <= i < fields.len() && (#[trigger] fields[i]).name == name && fields[i].data_type
            is Primitive
}

/// The top-level fields that are referred to: those fields, in their order,
/// whose name is by itself one of the paths. A path of several segments
/// refers to no field.
pub open spec fn referenced_fields(fields: Seq<FieldView>, references: Set<ColumnPath>) -> Seq<
    FieldView,
>
    decreases fields.len(),
{
    if fields.len() == 0 {
        Seq::empty()
    } else if references.contains(seq![fields.last().name]) {
        referenced_fields(fields.drop_last(), references).push(fields.last())
    } else {
        referenced_fields(fields.drop_last(), references)
    }
}

/// The type of the null counts of a value of type `t`: the same shape, with
/// `Long` for each primitive type.
pub open spec fn null_count_type(t: TypeView) -> TypeView
    decreases t,
{
    match t {
        TypeView::Primitive(_) => TypeView::Primitive(PrimitiveType::Long),
        TypeView::Struct(fields) => TypeView::Struct(null_count_fields(fields)),
    }
}

/// The fields of the null counts of a record with the given fields.
pub open spec fn null_count_fields(fields: Seq<FieldView>) -> Seq<FieldView>
    decreases fields,
{
    if fields.len() == 0 {
        Seq::empty()
    } else {
        null_count_fields(fields.drop_last()).push(
            FieldView {
                name: fields.last().name,
                data_type: null_count_type(fields.last().data_type),
                nullable: fields.last().nullable,
            },
        )
    }
}

/// The null counts mirror the fields: as many fields, with the same names
/// and nullability in the same order, a record for a record and `Long` for a
/// primitive type.
pub proof fn lemma_null_counts_mirror(fields: Seq<FieldView>)
    ensures
        null_count_fields(fields).len() == fields.len(),
        forall|i: int|
            0 <= i < fields.len() ==> (#[trigger] null_count_fields(fields)[i]) == (FieldView {
                name: fields[i].name,
                data_type: null_count_type(fields[i].data_type),
                nullable: fields[i].nullable,
            }),
        forall|t: TypeView|
            (t is Struct <==> (#[trigger] null_count_type(t)) is Struct) && (t is Primitive
                ==> null_count_type(t) == TypeView::Primitive(PrimitiveType::Long)),
    decreases fields.len(),
{
    if fields.len() > 0 {
        lemma_null_counts_mirror(fields.drop_last());
    }
}

/// The referenced fields are fields of the table whose name is referred to,
/// and every such field of the table is among them.
pub proof fn lemma_referenced_fields(fields: Seq<FieldView>, references: Set<ColumnPath>)
    ensures
        forall|i: int|
            0 <= i < referenced_fields(fields, references).len() ==> references.contains(
                seq![(#[trigger] referenced_fields(fields, references)[i]).name],
            ) && fields.contains(referenced_fields(fields, references)[i]),
        forall|j: int|
            0 <= j < fields.len() && references.contains(seq![(#[trigger] fields[j]).name])
                ==> referenced_fields(fields, references).contains(fields[j]),
        referenced_fields(fields, references).len() <= fields.len(),
    decreases fields.len(),
{
    if fields.len() > 0 {
        let kept = referenced_fields(fields, references);
        let before = referenced_fields(fields.drop_last(), references);
        lemma_referenced_fields(fields.drop_last(), references);
        assert forall|i: int| 0 <= i < kept.len() implies references.contains(
            seq![(#[trigger] kept[i]).name],
        ) && fields.contains(kept[i]) by {
            if i < before.len() {
                assert(kept[i] == before[i]);
                let j = choose|j: int|
                    0 <= j < fields.drop_last().len() && fields.drop_last()[j] == before[i];
                assert(fields[j] == kept[i]);
            } else {
                assert(fields[fields.len() - 1] == kept[i]);
            }
        }
        assert forall|j: int|
            0 <= j < fields.len() && references.contains(
                seq![(#[trigger] fields[j]).name],
            ) implies kept.contains(fields[j]) by {
            if j < fields.len() - 1 {
                assert(fields.drop_last()[j] == fields[j]);
                let i = choose|i: int| 0 <= i < before.len() && before[i] == fields[j];
                assert(kept[i] == fields[j]);
            } else {
                assert(kept[kept.len() - 1] == fields[j]);
            }
        }
    }
}

/// The nullable field `name` of type `data_type`.
pub open spec fn nullable_field(name: Seq<char>, data_type: TypeView) -> FieldView {
    FieldView { name, data_type, nullable: true }
}

/// The shape of the statistics record over the columns `minmax`:
/// `numRecords`, `tightBounds`, `nullCount`, `minValues` and `maxValues`, in
/// this order. Minimum and maximum have the types of the columns, and the
/// null counts mirror them.
pub open spec fn stats_fields(minmax: Seq<FieldView>) -> Seq<FieldView> {
    seq![
        nullable_field("numRecords"@, TypeView::Primitive(PrimitiveType::Long)),
        nullable_field("tightBounds"@, TypeView::Primitive(PrimitiveType::Boolean)),
        nullable_field("nullCount"@, TypeView::Struct(null_count_fields(minmax))),
        nullable_field("minValues"@, TypeView::Struct(minmax)),
        nullable_field("maxValues"@, TypeView::Struct(minmax)),
    ]
}

/// The shape of the statistics record that is read for a predicate which
/// refers to the columns `references` of a table with the fields `table`:
/// the statistics of the referenced fields of the table, or `None` where
/// the predicate refers to no field of the table.
pub open spec fn stats_schema(table: Seq<FieldView>, references: Set<ColumnPath>) -> Option<
    Seq<FieldView>,
> {
    let minmax = referenced_fields(table, references);
    if minmax.len() == 0 {
        None
    } else {
        Some(stats_fields(minmax))
    }
}

/// The view of a record type is made of the views of its fields.
pub proof fn lemma_view_of_struct(t: DataType)
    ensures
        t matches DataType::Struct(record) ==> t@ == TypeView::Struct(record@),
{
    match t {
        DataType::Struct(record) => {
            assert(t@->Struct_0 =~= record@);
        },
        _ => {},
    }
}

impl DataType {
    /// The type of a record with the given fields.
    pub fn struct_type(record: StructType) -> (r: DataType)
        ensures
            r@ == TypeView::Struct(record@),
    {
        let r = DataType::Struct(Box::new(record));
        proof {
            lemma_view_of_struct(r);
        }
        r
    }

    /// The type of the null counts of a value of this type.
    pub fn null_counts(&self) -> (r: DataType)
        ensures
            r@ == null_count_type(self@),
        decreases self,
    {
        proof {
            lemma_view_of_struct(*self);
        }
        match self {
            DataType::Primitive(_) => DataType::Primitive(PrimitiveType::Long),
            DataType::Struct(record) => DataType::struct_type(record.null_counts()),
        }
    }

    /// A copy of the type.
    pub fn duplicate(&self) -> (r: DataType)
        ensures
            r@ == self@,
        decreases self,
    {
        proof {
            lemma_view_of_struct(*self);
        }
        match self {
            DataType::Primitive(p) => DataType::Primitive(*p),
            DataType::Struct(record) => DataType::struct_type(record.duplicate()),
        }
    }
}

impl StructField {
    /// The field `name` of type `data_type`.
    pub fn new(name: &str, data_type: DataType, nullable: bool) -> (r: StructField)
        ensures
            r@ == (FieldView { name: name@, data_type: data_type@, nullable }),
    {
        StructField { name: name.to_owned(), data_type, nullable }
    }

    /// A copy of the field.
    pub fn duplicate(&self) -> (r: StructField)
        ensures
            r@ == self@,
        decreases self,
    {
        StructField {
            name: self.name.clone(),
            data_type: self.data_type.duplicate(),
            nullable: self.nullable,
        }
    }
}

impl StructType {
    /// The record type with the given fields, in their order.
    pub fn new(fields: Vec<StructField>) -> (r: StructType)
        ensures
            r@ == field_views(fields@),
    {
        StructType { fields }
    }

    /// Whether the record has a field `name` of the primitive type `t`.
    pub fn has_field_of_type(&self, name: &String, t: PrimitiveType) -> (r: bool)
        ensures
            r == has_field_of_type(self@, name@, t),
    {
        let mut k: usize = 0;
        while k < self.fields.len()
            invariant
                k <= self.fields.len(),
                forall|i: int|
                    0 <= i < k ==> !((#[trigger] self@[i]).name == name@ && self@[i].data_type
                        == TypeView::Primitive(t)),
            decreases self.fields.len() - k,
        {
            let field = &self.fields[k];
            assert(self@[k as int] == field@);
            if field.name == *name {
                match &field.data_type {
                    DataType::Primitive(p) => {
                        if *p == t {
                            return true;
                        }
                    },
                    _ => {},
                }
            }
            k = k + 1;
        }
        false
    }

    /// Whether the record has a field `name` of a primitive type.
    pub fn has_primitive_field(&self, name: &String) -> (r: bool)
        ensures
            r == has_primitive_field(self@, name@),
    {
        let mut k: usize = 0;
        while k < self.fields.len()
            invariant
                k <= self.fields.len(),
                forall|i: int|
                    0 <= i < k ==> !((#[trigger] self@[i]).name == name@ && self@[i].data_type
                        is Primitive),
            decreases self.fields.len() - k,
        {
            let field = &self.fields[k];
            assert(self@[k as int] == field@);
            if field.name == *name {
                match &field.data_type {
                    DataType::Primitive(_) => {
                        return true;
                    },
                    _ => {},
                }
            }
            k = k + 1;
        }
        false
    }

    /// The record type of the null counts of a record of this type.
    pub fn null_counts(&self) -> (r: StructType)
        ensures
            r@ == null_count_fields(self@),
        decreases self,
    {
        let mut fields: Vec<StructField> = Vec::new();
        let mut k: usize = 0;
        assert(self@.take(0) =~= Seq::empty());
        while k < self.fields.len()
            invariant
                k <= self.fields.len(),
                field_views(fields@) == null_count_fields(self@.take(k as int)),
            decreases self.fields.len() - k,
        {
            let field = &self.fields[k];
            let counted = StructField {
                name: field.name.clone(),
                data_type: field.data_type.null_counts(),
                nullable: field.nullable,
            };
            fields.push(counted);
            proof {
                assert(self@.take(k + 1).drop_last() =~= self@.take(k as int));
                assert(self@.take(k + 1).last() == field@);
                assert(field_views(fields@) =~= null_count_fields(self@.take(k + 1)));
            }
            k = k + 1;
        }
        assert(self@.take(k as int) =~= self@);
        StructType { fields }
    }

    /// The top-level fields whose name is by itself one of the paths.
    pub fn referenced_fields(&self, references: &Vec<ColumnName>) -> (r: Vec<StructField>)
        ensures
            field_views(r@) == referenced_fields(self@, paths_of(references@)),
    {
        let mut fields: Vec<StructField> = Vec::new();
        let mut k: usize = 0;
        assert(self@.take(0) =~= Seq::empty());
        assert(field_views(fields@) =~= Seq::empty());
        while k < self.fields.len()
            invariant
                k <= self.fields.len(),
                field_views(fields@) == referenced_fields(
                    self@.take(k as int),
                    paths_of(references@),
                ),
            decreases self.fields.len() - k,
        {
            let field = &self.fields[k];
            let found = is_referenced(&field.name, references);
            proof {
                assert(self@.take(k + 1).drop_last() =~= self@.take(k as int));
                assert(self@.take(k + 1).last() == field@);
            }
            if found {
                fields.push(field.duplicate());
                assert(field_views(fields@) =~= referenced_fields(
                    self@.take(k + 1),
                    paths_of(references@),
                ));
            }
            k = k + 1;
        }
        assert(self@.take(k as int) =~= self@);
        fields
    }

    /// A copy of the record type.
    pub fn duplicate(&self) -> (r: StructType)
        ensures
            r@ == self@,
        decreases self,
    {
        let mut fields: Vec<StructField> = Vec::new();
        let mut k: usize = 0;
        while k < self.fields.len()
            invariant
                k <= self.fields.len(),
                fields@.len() == k,
                forall|j: int| 0 <= j < k ==> fields@[j]@ == self.fields@[j]@,
            decreases self.fields.len() - k,
        {
            fields.push(self.fields[k].duplicate());
            k = k + 1;
        }
        let r = StructType { fields };
        assert(r@ =~= self@);
        r
    }
}

/// Whether the top-level column `name` is one of the paths.
pub fn is_referenced(name: &String, references: &Vec<ColumnName>) -> (r: bool)
    ensures
        r == paths_of(references@).contains(seq![name@]),
{
    let mut j: usize = 0;
    while j < references.len()
        invariant
            j <= references.len(),
            forall|i: int| 0 <= i < j ==> (#[trigger] references@[i])@ != seq![name@],
        decreases references.len() - j,
    {
        let reference = &references[j];
        if reference.path.len() == 1 && reference.path[0] == *name {
            assert(reference@ =~= seq![name@]);
            assert(names_contain(references@, seq![name@]));
            return true;
        }
        proof {
            if reference@ == seq![name@] {
                assert(reference@.len() == 1);
                assert(reference@[0] == name@);
            }
        }
        j = j + 1;
    }
    assert(!names_contain(references@, seq![name@]));
    false
}

/// The shape of the statistics record over the columns of `minmax_schema`.
pub fn assemble_stats_schema(minmax_schema: StructType) -> (r: StructType)
    ensures
        r@ == stats_fields(minmax_schema@),
{
    let nullcount_schema = minmax_schema.null_counts();
    let mut fields: Vec<StructField> = Vec::new();
    fields.push(StructField::new("numRecords", DataType::Primitive(PrimitiveType::Long), true));
    fields.push(
        StructField::new("tightBounds", DataType::Primitive(PrimitiveType::Boolean), true),
    );
    fields.push(StructField::new("nullCount", DataType::struct_type(nullcount_schema), true));
    fields.push(
        StructField::new("minValues", DataType::struct_type(minmax_schema.duplicate()), true),
    );
    fields.push(StructField::new("maxValues", DataType::struct_type(minmax_schema), true));
    let schema = StructType::new(fields);
    assert(schema@ =~= stats_fields(minmax_schema@));
    schema
}

/// The shape of the statistics record that is read for a predicate which
/// refers to the columns `references`, or `None` where it refers to no field
/// of the table.
pub fn get_stats_schema(table: &StructType, references: &Vec<ColumnName>) -> (r: Option<StructType>)
    ensures
        match r {
            Some(schema) => stats_schema(table@, paths_of(references@)) == Some(schema@),
            None => stats_schema(table@, paths_of(references@)) is None,
        },
{
    let data_fields = table.referenced_fields(references);
    if data_fields.len() == 0 {
        return None;
    }
    Some(assemble_stats_schema(StructType::new(data_fields)))
}

impl Clone for DataType {
    fn clone(&self) -> (r: Self)
        ensures
            r@ == self@,
    {
        self.duplicate()
    }
}

impl Clone for StructField {
    fn clone(&self) -> (r: Self)
        ensures
            r@ == self@,
    {
        self.duplicate()
    }
}

impl Clone for StructType {
    fn clone(&self) -> (r: Self)
        ensures
            r@ == self@,
    {
        self.duplicate()
    }
}

} // verus!
