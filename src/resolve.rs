use vstd::layout::{align_of, size_of};
use vstd::prelude::*;

use crate::decimal::{dec_seq, decimal};
use crate::model::{Field, LayoutInfo};

verus! {

/// One member of a type as declared: its identifier, if it has one, its
/// measured offset and the layout of its own type.
pub struct FieldShape {
    pub ident: Option<String>,
    pub offset: usize,
    pub layout: LayoutInfo,
}

/// The declared shape of a type that reports its layout.
pub enum Shape {
    /// Named or positional members, in declaration order (possibly none).
    Struct(Vec<FieldShape>),
    /// An enumeration: only its total size and alignment are reported.
    Enum,
    /// Overlapping members, in declaration order.
    Union(Vec<FieldShape>),
}

/// The members that the report lists, in declaration order.
pub open spec fn shape_fields(shape: Shape) -> Seq<FieldShape> {
    match shape {
        Shape::Struct(v) => v@,
        Shape::Enum => Seq::empty(),
        Shape::Union(v) => v@,
    }
}

/// The display name of the member declared at position `i`.
pub open spec fn field_name(ident: Option<String>, i: nat) -> Seq<char> {
    match ident {
        Some(s) => s@,
        None => dec_seq(i),
    }
}

/// `f` reports the member `s` declared at position `i`.
pub open spec fn describes(s: FieldShape, i: nat, f: Field) -> bool {
    &&& f.name@ == field_name(s.ident, i)
    &&& f.offset == s.offset
    &&& f.layout == s.layout
}

/// Offsets never decrease along `fields`.
pub open spec fn sorted_by_offset(fields: Seq<Field>) -> bool {
    forall|j: int, k: int| 0 <= j <= k < fields.len() ==> fields[j].offset <= fields[k].offset
}

/// `fields` reports the members `shapes` in another order: the entry at `j`
/// is the member declared at `pos[j]`, and the member declared at `i` stands
/// at `place[i]`. Entries with equal offsets keep their declaration order.
pub open spec fn arranges(
    shapes: Seq<FieldShape>,
    fields: Seq<Field>,
    pos: Seq<int>,
    place: Seq<int>,
) -> bool {
    &&& fields.len() == shapes.len()
    &&& pos.len() == shapes.len()
    &&& place.len() == shapes.len()
    &&& forall|j: int|
        0 <= j < fields.len() ==> {
            &&& 0 <= #[trigger] pos[j] < shapes.len()
            &&& place[pos[j]] == j
            &&& describes(shapes[pos[j]], pos[j] as nat, fields[j])
        }
    &&& forall|i: int|
        0 <= i < shapes.len() ==> 0 <= #[trigger] place[i] < fields.len() && pos[place[i]] == i
    &&& forall|j: int, k: int|
        0 <= j < k < fields.len() && fields[j].offset == fields[k].offset ==> pos[j] < pos[k]
}

/// `fields` reports the members `shapes`, stably sorted by ascending offset.
pub open spec fn stable_sorted_fields(shapes: Seq<FieldShape>, fields: Seq<Field>) -> bool {
    &&& sorted_by_offset(fields)
    &&& exists|pos: Seq<int>, place: Seq<int>| arranges(shapes, fields, pos, place)
}

/// `r` is the layout report of a type named `name`, of `size` bytes and
/// alignment `align`, declared with `shape`.
pub open spec fn resolves(name: &'static str, size: usize, align: usize, shape: Shape, r: LayoutInfo) -> bool {
    &&& r.name == name
    &&& r.size == size
    &&& r.align == align
    &&& r.fields@.len() == shape_fields(shape).len()
    &&& stable_sorted_fields(shape_fields(shape), r.fields@)
}

/// Names each member and sorts the members stably by ascending offset.
pub fn arrange_fields(shapes: Vec<FieldShape>) -> (r: Vec<Field>)
    ensures
        r@.len() == shapes@.len(),
        stable_sorted_fields(shapes@, r@),
{
    let ghost orig = shapes@;
    let mut rest = shapes;
    let mut out: Vec<Field> = Vec::new();
    let ghost mut pos: Seq<int> = Seq::empty();
    let ghost mut place: Seq<int> = Seq::empty();
    let n = rest.len();
    let mut i: usize = 0;
    assert(orig.subrange(0, 0) =~= Seq::<FieldShape>::empty());
    while i < n
        invariant
            n == orig.len(),
            i <= n,
            rest@ =~= orig.subrange(i as int, n as int),
            sorted_by_offset(out@),
            arranges(orig.subrange(0, i as int), out@, pos, place),
        decreases n - i,
    {
        let s = rest.remove(0);
        assert(s == orig[i as int]);
        let FieldShape { ident, offset, layout } = s;
        let name = match ident {
            Some(id) => id,
            None => decimal(i),
        };
        let mut p: usize = out.len();
        while p > 0 && out[p - 1].offset > offset
            invariant
                p <= out.len(),
                forall|k: int| p <= k < out.len() ==> out@[k].offset > offset,
            decreases p,
        {
            p = p - 1;
        }
        let ghost old_out = out@;
        let ghost old_pos = pos;
        let ghost old_place = place;
        let f = Field { name, offset, layout };
        assert(describes(orig[i as int], i as nat, f));
        out.insert(p, f);
        proof {
            pos = old_pos.insert(p as int, i as int);
            place = old_place.map_values(|j: int| if j >= p { j + 1 } else { j }).push(p as int);
            let next = orig.subrange(0, i + 1);
            assert forall|k: int| 0 <= k < p implies old_out[k].offset <= offset by {
                if k < p - 1 {
                    assert(old_out[k].offset <= old_out[p - 1].offset);
                }
            }
            assert forall|j: int| 0 <= j < out@.len() implies {
                &&& 0 <= #[trigger] pos[j] < next.len()
                &&& place[pos[j]] == j
                &&& describes(next[pos[j]], pos[j] as nat, out@[j])
            } by {
                if j < p {
                    assert(old_pos[j] < i);
                    assert(place[pos[j]] == old_place[old_pos[j]]);
                } else if j > p {
                    assert(pos[j] == old_pos[j - 1]);
                    assert(old_place[old_pos[j - 1]] == j - 1);
                } else {
                    assert(pos[j] == i);
                }
            }
            assert forall|k: int| 0 <= k < next.len() implies 0 <= #[trigger] place[k] < out@.len()
                && pos[place[k]] == k by {
                if k < i {
                    assert(old_pos[old_place[k]] == k);
                }
            }
            assert forall|j: int, k: int|
                0 <= j < k < out@.len() && out@[j].offset == out@[k].offset implies pos[j]
                < pos[k] by {
                if j < p && k > p {
                    assert(old_out[j].offset <= old_out[k - 1].offset);
                }
            }
            assert(arranges(next, out@, pos, place));
        }
        i = i + 1;
    }
    assert(orig.subrange(0, n as int) =~= orig);
    assert(arranges(orig, out@, pos, place));
    out
}

/// Assembles the report of a type named `name`, of `size` bytes and
/// alignment `align`, declared with `shape`: members of structs and unions
/// are named and sorted stably by offset; enumerations list no members.
pub fn resolve(name: &'static str, size: usize, align: usize, shape: Shape) -> (r: LayoutInfo)
    ensures
        resolves(name, size, align, shape, r),
{
    let fields = match shape {
        Shape::Struct(v) => arrange_fields(v),
        Shape::Enum => {
            let v: Vec<Field> = Vec::new();
            assert(arranges(Seq::empty(), v@, Seq::empty(), Seq::empty()));
            v
        },
        Shape::Union(v) => arrange_fields(v),
    };
    LayoutInfo::new(name, size, align, fields)
}

/// The report of type `T`, displayed as `name` and declared with `shape`,
/// with the size and alignment that the compiler gives it.
pub fn resolve_type<T>(name: &'static str, shape: Shape) -> (r: LayoutInfo)
    ensures
        r.name == name,
        r.size as nat == size_of::<T>(),
        r.align as nat == align_of::<T>(),
        stable_sorted_fields(shape_fields(shape), r.fields@),
{
    resolve(name, core::mem::size_of::<T>(), core::mem::align_of::<T>(), shape)
}

/// The report of a type `T`, displayed as `name`, whose members are not
/// inspected: its size and alignment, and no fields.
pub fn leaf<T>(name: &'static str) -> (r: LayoutInfo)
    ensures
        r.name == name,
        r.size as nat == size_of::<T>(),
        r.align as nat == align_of::<T>(),
        r.fields@.len() == 0,
{
    LayoutInfo::new(name, core::mem::size_of::<T>(), core::mem::align_of::<T>(), Vec::new())
}

/// Every member that lies within its type, its offset plus its size at most
/// the type's size, is reported so, in ascending order of offset.
pub proof fn lemma_fields_within_bounds(
    name: &'static str,
    size: usize,
    align: usize,
    shape: Shape,
    r: LayoutInfo,
)
    requires
        resolves(name, size, align, shape, r),
        forall|i: int|
            0 <= i < shape_fields(shape).len() ==> #[trigger] shape_fields(shape)[i].offset
                + shape_fields(shape)[i].layout.size <= size,
    ensures
        sorted_by_offset(r.fields@),
        forall|j: int|
            0 <= j < r.fields@.len() ==> #[trigger] r.fields@[j].offset + r.fields@[j].layout.size
                <= r.size,
{
    let shapes = shape_fields(shape);
    let (pos, place) = choose|pos: Seq<int>, place: Seq<int>| arranges(shapes, r.fields@, pos, place);
    assert forall|j: int| 0 <= j < r.fields@.len() implies #[trigger] r.fields@[j].offset
        + r.fields@[j].layout.size <= r.size by {
        assert(0 <= pos[j] < shapes.len());
        assert(shapes[pos[j]].offset + shapes[pos[j]].layout.size <= size);
    }
}

/// The field at `j` of `fields` is named after the declaration position
/// `pos[j]` of the member of `shapes` that it reports; positions are
/// distinct, and fields with equal offsets keep declaration order.
pub open spec fn named_by_position(shapes: Seq<FieldShape>, fields: Seq<Field>, pos: Seq<int>) -> bool {
    &&& pos.len() == fields.len()
    &&& forall|j: int|
        0 <= j < fields.len() ==> {
            &&& 0 <= #[trigger] pos[j] < fields.len()
            &&& fields[j].name@ == dec_seq(pos[j] as nat)
            &&& fields[j].offset == shapes[pos[j]].offset
        }
    &&& forall|j: int, k: int| 0 <= j < k < fields.len() ==> pos[j] != pos[k]
    &&& forall|j: int, k: int|
        0 <= j < k < fields.len() && fields[j].offset == fields[k].offset ==> pos[j] < pos[k]
}

/// Members without identifiers are named by their declaration position in
/// decimal, each field after the member it reports.
pub proof fn lemma_positional_names(
    name: &'static str,
    size: usize,
    align: usize,
    shape: Shape,
    r: LayoutInfo,
)
    requires
        resolves(name, size, align, shape, r),
        forall|i: int| 0 <= i < shape_fields(shape).len() ==> #[trigger] shape_fields(shape)[i].ident is None,
    ensures
        exists|pos: Seq<int>| named_by_position(shape_fields(shape), r.fields@, pos),
{
    let shapes = shape_fields(shape);
    let fields = r.fields@;
    let (pos, place) = choose|pos: Seq<int>, place: Seq<int>| arranges(shapes, fields, pos, place);
    assert forall|j: int| 0 <= j < fields.len() implies {
        &&& 0 <= #[trigger] pos[j] < fields.len()
        &&& fields[j].name@ == dec_seq(pos[j] as nat)
        &&& fields[j].offset == shapes[pos[j]].offset
    } by {
        assert(shapes[pos[j]].ident is None);
    }
    assert forall|j: int, k: int| 0 <= j < k < fields.len() implies pos[j] != pos[k] by {
        assert(place[pos[j]] == j && place[pos[k]] == k);
    }
    assert(named_by_position(shapes, fields, pos));
}

/// A member whose own type reports a layout keeps that layout whole, with
/// its own fields: some reported field carries it, named after the member.
pub proof fn lemma_nested_layouts_kept(
    name: &'static str,
    size: usize,
    align: usize,
    shape: Shape,
    r: LayoutInfo,
    i: int,
    inner_name: &'static str,
    inner_size: usize,
    inner_align: usize,
    inner_shape: Shape,
)
    requires
        resolves(name, size, align, shape, r),
        0 <= i < shape_fields(shape).len(),
        resolves(inner_name, inner_size, inner_align, inner_shape, shape_fields(shape)[i].layout),
    ensures
        exists|j: int|
            0 <= j < r.fields@.len() && #[trigger] r.fields@[j].name@ == field_name(
                shape_fields(shape)[i].ident,
                i as nat,
            ) && resolves(inner_name, inner_size, inner_align, inner_shape, r.fields@[j].layout),
{
    let shapes = shape_fields(shape);
    let (pos, place) = choose|pos: Seq<int>, place: Seq<int>| arranges(shapes, r.fields@, pos, place);
    let j = place[i];
    assert(pos[j] == i);
    assert(describes(shapes[i], i as nat, r.fields@[j]));
}

} // verus!
