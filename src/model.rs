use vstd::prelude::*;

verus! {

/// The memory layout of one type.
pub struct LayoutInfo {
    /// The type's display name.
    pub name: &'static str,
    /// Total size in bytes.
    pub size: usize,
    /// Required alignment in bytes.
    pub align: usize,
    /// The type's fields, in ascending order of offset.
    pub fields: Vec<Field>,
}

/// One member of a structured type.
pub struct Field {
    /// The declared identifier, or the decimal position of an unnamed member.
    pub name: String,
    /// Byte offset from the containing type's base address.
    pub offset: usize,
    /// The layout of the member's own type.
    pub layout: LayoutInfo,
}

/// The capability of a type to report its own layout.
pub trait Layout {
    fn get_layout() -> LayoutInfo;
}

impl LayoutInfo {
    pub fn new(name: &'static str, size: usize, align: usize, fields: Vec<Field>) -> (r: Self)
        ensures
            r.name == name,
            r.size == size,
            r.align == align,
            r.fields == fields,
    {
        LayoutInfo { name, size, align, fields }
    }
}

impl Default for LayoutInfo {
    /// An empty layout: no name, size 0, alignment 1 and no fields.
    fn default() -> (r: Self)
        ensures
            r.name@ == Seq::<char>::empty(),
            r.size == 0,
            r.align == 1,
            r.fields@.len() == 0,
    {
        let name: &'static str = "";
        proof {
            reveal_strlit("");
        }
        LayoutInfo { name, size: 0, align: 1, fields: Vec::new() }
    }
}

} // verus!
