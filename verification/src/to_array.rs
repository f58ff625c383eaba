//! Arrow arrays of kernel scalars.
use crate::append::{append, append_each, Appended};
use crate::arrow_arrays::ArrowArray;
use crate::arrow_builders::{map_keys, ColumnBuilder};
use crate::building::{admitted, lemma_append_each_finishable, lemma_append_finishable, settled};
use crate::conversion::{
    arrow_fields, arrow_type, arrow_type_of, lemma_arrow_fields, lemma_arrow_type_buildable,
    LIST_ARRAY_ROOT, MAP_KEY_DEFAULT, MAP_VALUE_DEFAULT,
};
use crate::error::{Error, ErrorView};
use crate::growth::{in_order, sound_builder};
use crate::model::{
    empty_column, empty_columns, finishable, max_slots, times, within_limits, ArrowType, Column,
};
use crate::scalars::{scalar_type, well_typed, ArrayData, Scalar};
use crate::schema::{fields_view, lemma_fields_view, FieldView, TypeView};
use crate::text::dotted;
use vstd::prelude::*;

verus! {

/// What holds of a new builder.
pub open spec fn is_new_builder(c: Column, t: ArrowType) -> bool {
    &&& sound_builder(c)
    &&& finishable(c)
    &&& settled(c)
    &&& c.data_type() == t
    &&& c.len() == 0
}

/// A new builder for the Arrow type of a kernel type is empty, and could be finished at once.
pub proof fn lemma_new_builder(t: TypeView, ancestor: Option<FieldView>, path: Seq<char>)
    requires
        arrow_type(t, ancestor, path) is Ok,
    ensures
        is_new_builder(
            empty_column(arrow_type(t, ancestor, path)->Ok_0),
            arrow_type(t, ancestor, path)->Ok_0,
        ),
    decreases t, 0nat,
{
    let a = arrow_type(t, ancestor, path)->Ok_0;
    let c = empty_column(a);
    match t {
        TypeView::Primitive(_) => {},
        TypeView::Array(element, _) => {
            lemma_new_builder(*element, ancestor, dotted(path, LIST_ARRAY_ROOT@));
        },
        TypeView::MapOf(key, value, _) => {
            lemma_new_builder(*key, ancestor, dotted(path, MAP_KEY_DEFAULT@));
            lemma_new_builder(*value, ancestor, dotted(path, MAP_VALUE_DEFAULT@));
            let e = *c->MapOf_entries;
            let fs = e->Struct_fields;
            assert(e->Struct_columns == empty_columns(fs));
            assert(e->Struct_columns[0] == empty_column(fs[0].data_type));
            assert(e->Struct_columns[1] == empty_column(fs[1].data_type));
            assert(map_keys(c).len() == 0);
            assert(e->Struct_validity =~= times(true, 0));
            assert forall|i: int| 0 <= i < 2 implies {
                &&& finishable(#[trigger] e->Struct_columns[i])
                &&& sound_builder(e->Struct_columns[i])
                &&& settled(e->Struct_columns[i])
                &&& e->Struct_columns[i].len() == 0
                &&& e->Struct_columns[i].data_type() == fs[i].data_type
            } by {
                assert(i == 0 || i == 1);
            }
            assert(finishable(e));
            assert(sound_builder(e));
            assert(settled(e));
            assert(in_order(c->MapOf_offsets, 0, 0));
        },
        TypeView::Struct(fs) => {
            lemma_new_struct_builder(fs);
        },
        TypeView::Variant(fs) => {
            lemma_new_struct_builder(fs);
        },
    }
}

proof fn lemma_new_struct_builder(fs: Seq<FieldView>)
    requires
        arrow_fields(fs, fs.len()) is Ok,
    ensures
        is_new_builder(
            empty_column(ArrowType::Struct(arrow_fields(fs, fs.len())->Ok_0)),
            ArrowType::Struct(arrow_fields(fs, fs.len())->Ok_0),
        ),
    decreases fs, 1nat,
{
    let fields = arrow_fields(fs, fs.len())->Ok_0;
    let columns = empty_columns(fields);
    lemma_arrow_fields(fs, fs.len());
    assert forall|i: int| 0 <= i < fs.len() implies is_new_builder(
        #[trigger] columns[i],
        fields[i].data_type,
    ) by {
        lemma_new_builder(fs[i].data_type, Some(fs[i]), fs[i].name);
    }
}

/// A well-typed scalar can stand in a column of its own type.
pub proof fn lemma_well_typed_admitted(s: Scalar, ancestor: Option<FieldView>, path: Seq<char>)
    requires
        well_typed(s),
        arrow_type(scalar_type(s), ancestor, path) is Ok,
    ensures
        admitted(s, arrow_type(scalar_type(s), ancestor, path)->Ok_0),
    decreases s,
{
    match s {
        Scalar::Struct(d) => {
            let fs = fields_view(d.fields@);
            lemma_fields_view(d.fields@);
            lemma_arrow_fields(fs, fs.len());
            let fields = arrow_fields(fs, fs.len())->Ok_0;
            assert forall|i: int| 0 <= i < d.values@.len() implies {
                &&& admitted(#[trigger] d.values@[i], fields[i].data_type)
                &&& d.values@[i] is Null ==> fields[i].nullable
            } by {
                assert(fs[i] == d.fields@[i]@);
                lemma_well_typed_admitted(d.values@[i], Some(fs[i]), fs[i].name);
            }
        },
        Scalar::Array(d) => {
            assert forall|i: int| 0 <= i < d.elements@.len() implies admitted(
                #[trigger] d.elements@[i],
                arrow_type(
                    d.tpe.element_type@,
                    ancestor,
                    dotted(path, LIST_ARRAY_ROOT@),
                )->Ok_0,
            ) by {
                lemma_well_typed_admitted(
                    d.elements@[i],
                    ancestor,
                    dotted(path, LIST_ARRAY_ROOT@),
                );
            }
        },
        Scalar::MapOf(d) => {
            assert forall|i: int| 0 <= i < d.pairs@.len() implies {
                &&& admitted(
                    (#[trigger] d.pairs@[i]).0,
                    arrow_type(d.tpe.key_type@, ancestor, dotted(path, MAP_KEY_DEFAULT@))->Ok_0,
                )
                &&& admitted(
                    d.pairs@[i].1,
                    arrow_type(d.tpe.value_type@, ancestor, dotted(path, MAP_VALUE_DEFAULT@))->Ok_0,
                )
            } by {
                lemma_well_typed_admitted(
                    d.pairs@[i].0,
                    ancestor,
                    dotted(path, MAP_KEY_DEFAULT@),
                );
                lemma_well_typed_admitted(
                    d.pairs@[i].1,
                    ancestor,
                    dotted(path, MAP_VALUE_DEFAULT@),
                );
            }
        },
        _ => {},
    }
}

/// The column that an attempt to append made, unless it failed.
pub open spec fn built(a: Appended) -> Result<Column, ErrorView> {
    match a.error {
        Some(e) => Err(e),
        None => Ok(a.column),
    }
}

/// The column of `n` rows that hold `s`, of the Arrow type of `s`.
pub open spec fn scalar_column(s: Scalar, n: nat) -> Result<Column, ErrorView> {
    match arrow_type(scalar_type(s), None, ""@) {
        Ok(t) => built(append(empty_column(t), s, n)),
        Err(e) => Err(e),
    }
}

/// Whether the buffers for `n` rows that hold `s` can be allocated and indexed.
pub open spec fn scalar_fits(s: Scalar, n: nat) -> bool {
    &&& n <= max_slots()
    &&& arrow_type(scalar_type(s), None, ""@) matches Ok(t) ==> within_limits(
        append(empty_column(t), s, n).column,
    )
}

/// The column of the elements of a list, one row each, of the Arrow type of the elements.
pub open spec fn elements_column(d: ArrayData) -> Result<Column, ErrorView> {
    match arrow_type(d.tpe.element_type@, None, ""@) {
        Ok(t) => built(append_each(empty_column(t), d.elements@, d.elements@.len())),
        Err(e) => Err(e),
    }
}

/// Whether the buffers for the elements of a list can be allocated and indexed.
pub open spec fn elements_fit(d: ArrayData) -> bool {
    &&& d.elements@.len() <= max_slots()
    &&& arrow_type(d.tpe.element_type@, None, ""@) matches Ok(t) ==> within_limits(
        append_each(empty_column(t), d.elements@, d.elements@.len()).column,
    )
}

/// Whether every element of a list is well-typed and has the type that the list declares.
pub open spec fn well_typed_elements(d: ArrayData) -> bool {
    forall|i: int|
        #![trigger d.elements@[i]]
        0 <= i < d.elements@.len() ==> well_typed(d.elements@[i]) && scalar_type(d.elements@[i])
            == d.tpe.element_type@
}

/// Whether a result is the array that `expected` says.
pub open spec fn is_array_result(
    r: Result<ArrowArray, Error>,
    expected: Result<Column, ErrorView>,
) -> bool {
    match r {
        Ok(a) => expected == Ok::<Column, ErrorView>(a@),
        Err(e) => expected == Err::<Column, ErrorView>(e@),
    }
}

impl Scalar {
    /// Converts the scalar to an Arrow array of `num_rows` rows that all hold it.
    pub fn to_array(&self, num_rows: usize) -> (r: Result<ArrowArray, Error>)
        requires
            well_typed(*self),
            scalar_fits(*self, num_rows as nat),
        ensures
            is_array_result(r, scalar_column(*self, num_rows as nat)),
    {
        let data_type = match arrow_type_of(&self.data_type()) {
            Ok(t) => t,
            Err(e) => {
                return Err(e);
            },
        };
        proof {
            lemma_arrow_type_buildable(scalar_type(*self), None, ""@);
            lemma_new_builder(scalar_type(*self), None, ""@);
            lemma_well_typed_admitted(*self, None, ""@);
        }
        let mut builder = ColumnBuilder::new(&data_type, num_rows);
        let ghost empty = builder@;
        match self.append_to(&mut builder, num_rows) {
            Ok(()) => {},
            Err(e) => {
                return Err(e);
            },
        }
        proof {
            lemma_append_finishable(empty, *self, num_rows as nat);
        }
        Ok(builder.finish())
    }
}

impl ArrayData {
    /// Converts the list to an Arrow array of its elements, one row each.
    pub fn to_arrow(&self) -> (r: Result<ArrowArray, Error>)
        requires
            well_typed_elements(*self),
            elements_fit(*self),
        ensures
            is_array_result(r, elements_column(*self)),
    {
        let data_type = match arrow_type_of(&self.tpe.element_type) {
            Ok(t) => t,
            Err(e) => {
                return Err(e);
            },
        };
        proof {
            let t = self.tpe.element_type@;
            lemma_arrow_type_buildable(t, None, ""@);
            lemma_new_builder(t, None, ""@);
            assert forall|i: int| 0 <= i < self.elements@.len() implies admitted(
                #[trigger] self.elements@[i],
                arrow_type(t, None, ""@)->Ok_0,
            ) by {
                lemma_well_typed_admitted(self.elements@[i], None, ""@);
            }
        }
        let mut builder = ColumnBuilder::new(&data_type, self.elements.len());
        let ghost empty = builder@;
        match Scalar::append_all(&mut builder, &self.elements) {
            Ok(()) => {},
            Err(e) => {
                return Err(e);
            },
        }
        proof {
            lemma_append_each_finishable(empty, self.elements@, self.elements@.len(), true);
        }
        Ok(builder.finish())
    }
}

} // verus!
