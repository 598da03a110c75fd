use vstd::prelude::*;
use vstd::string::*;

use crate::decimal::{dec_seq, decimal};
use crate::model::{Field, LayoutInfo};

verus! {

/// `n` copies of `c`.
pub open spec fn fill(c: char, n: nat) -> Seq<char> {
    Seq::new(n, |_i: int| c)
}

/// `s` left-aligned in a cell of at least `width` characters, padded with `c`.
pub open spec fn left_aligned(s: Seq<char>, width: nat, c: char) -> Seq<char> {
    if s.len() >= width {
        s
    } else {
        s + fill(c, (width - s.len()) as nat)
    }
}

/// `s` centred in a cell of at least `width` characters; an odd padding
/// leaves the extra space on the right.
pub open spec fn centered(s: Seq<char>, width: nat) -> Seq<char> {
    if s.len() >= width {
        s
    } else {
        let pad = (width - s.len()) as nat;
        fill(' ', pad / 2) + s + fill(' ', (pad - pad / 2) as nat)
    }
}

/// The first line: name, size and alignment of the type.
pub open spec fn title_text(l: LayoutInfo) -> Seq<char> {
    l.name@ + " (size: "@ + dec_seq(l.size as nat) + ", align: "@ + dec_seq(l.align as nat) + ")\n"@
}

/// The row of column titles.
pub open spec fn header_text() -> Seq<char> {
    "| "@ + centered("field"@, 8) + " | "@ + centered("offset"@, 6) + " | "@ + centered("size"@, 6)
        + " | "@ + centered("type"@, 10) + " |\n"@
}

/// The row that separates the titles from the fields.
pub open spec fn rule_text() -> Seq<char> {
    "| "@ + fill('-', 8) + " | "@ + fill('-', 6) + " | "@ + fill('-', 6) + " | "@ + fill('-', 10)
        + " |\n"@
}

/// The type column of a field whose own layout is `l`.
pub open spec fn type_cell(l: LayoutInfo) -> Seq<char> {
    l.name@ + " (align: "@ + dec_seq(l.align as nat) + ")"@
}

/// The row of one field: name, offset, size and type.
pub open spec fn row_text(f: Field) -> Seq<char> {
    "| "@ + left_aligned(f.name@, 8, ' ') + " | "@ + left_aligned(dec_seq(f.offset as nat), 6, ' ')
        + " | "@ + left_aligned(dec_seq(f.layout.size as nat), 6, ' ') + " | "@ + left_aligned(
        type_cell(f.layout),
        10,
        ' ',
    ) + " |\n"@
}

/// The rows of `fields`, in order.
pub open spec fn rows_text(fields: Seq<Field>) -> Seq<char>
    decreases fields.len(),
{
    if fields.len() == 0 {
        Seq::empty()
    } else {
        rows_text(fields.drop_last()) + row_text(fields.last())
    }
}

/// The whole table of `l`.
pub open spec fn render_text(l: LayoutInfo) -> Seq<char> {
    title_text(l) + header_text() + rule_text() + rows_text(l.fields@)
}

fn push_fill(out: &mut String, c: &str, n: usize)
    requires
        c@.len() == 1,
    ensures
        final(out)@ == old(out)@ + fill(c@[0], n as nat),
{
    let ghost start = old(out)@;
    let mut k: usize = 0;
    while k < n
        invariant
            c@.len() == 1,
            k <= n,
            out@ =~= start + fill(c@[0], k as nat),
        decreases n - k,
    {
        out.append(c);
        k = k + 1;
        assert(out@ =~= start + fill(c@[0], k as nat));
    }
}

fn push_left(out: &mut String, s: &str, width: usize)
    ensures
        final(out)@ == old(out)@ + left_aligned(s@, width as nat, ' '),
{
    let ghost start = old(out)@;
    out.append(s);
    let len = s.unicode_len();
    let space = " ";
    proof {
        reveal_strlit(" ");
    }
    if len < width {
        push_fill(out, space, width - len);
        assert(out@ =~= start + left_aligned(s@, width as nat, ' '));
    }
}

fn push_centered(out: &mut String, s: &str, width: usize)
    ensures
        final(out)@ == old(out)@ + centered(s@, width as nat),
{
    let ghost start = old(out)@;
    let len = s.unicode_len();
    let space = " ";
    proof {
        reveal_strlit(" ");
    }
    if len < width {
        let pad = width - len;
        push_fill(out, space, pad / 2);
        out.append(s);
        push_fill(out, space, pad - pad / 2);
        assert(out@ =~= start + centered(s@, width as nat));
    } else {
        out.append(s);
    }
}

fn push_row(out: &mut String, f: &Field)
    ensures
        final(out)@ == old(out)@ + row_text(*f),
{
    let ghost start = old(out)@;
    out.append("| ");
    push_left(out, f.name.as_str(), 8);
    out.append(" | ");
    let offset = decimal(f.offset);
    push_left(out, offset.as_str(), 6);
    out.append(" | ");
    let size = decimal(f.layout.size);
    push_left(out, size.as_str(), 6);
    out.append(" | ");
    let mut cell = String::from_str(f.layout.name);
    cell.append(" (align: ");
    let align = decimal(f.layout.align);
    cell.append(align.as_str());
    cell.append(")");
    push_left(out, cell.as_str(), 10);
    out.append(" |\n");
    assert(out@ =~= start + row_text(*f));
}

impl LayoutInfo {
    /// The report as a table: a title line, a header row, a separator row,
    /// then one row per field in the order of `fields`.
    pub fn render(&self) -> (r: String)
        ensures
            r@ == render_text(*self),
    {
        let mut out = String::from_str(self.name);
        out.append(" (size: ");
        let size = decimal(self.size);
        out.append(size.as_str());
        out.append(", align: ");
        let align = decimal(self.align);
        out.append(align.as_str());
        out.append(")\n");
        let ghost title = out@;
        assert(title =~= title_text(*self));

        out.append("| ");
        push_centered(&mut out, "field", 8);
        out.append(" | ");
        push_centered(&mut out, "offset", 6);
        out.append(" | ");
        push_centered(&mut out, "size", 6);
        out.append(" | ");
        push_centered(&mut out, "type", 10);
        out.append(" |\n");
        assert(out@ =~= title + header_text());

        let dash = "-";
        proof {
            reveal_strlit("-");
        }
        out.append("| ");
        push_fill(&mut out, dash, 8);
        out.append(" | ");
        push_fill(&mut out, dash, 6);
        out.append(" | ");
        push_fill(&mut out, dash, 6);
        out.append(" | ");
        push_fill(&mut out, dash, 10);
        out.append(" |\n");
        let ghost table_head = out@;
        assert(table_head =~= title + header_text() + rule_text());

        let mut i: usize = 0;
        while i < self.fields.len()
            invariant
                i <= self.fields@.len(),
                out@ =~= table_head + rows_text(self.fields@.subrange(0, i as int)),
            decreases self.fields@.len() - i,
        {
            push_row(&mut out, &self.fields[i]);
            assert(self.fields@.subrange(0, i + 1).drop_last() =~= self.fields@.subrange(0, i as int));
            i = i + 1;
        }
        assert(self.fields@.subrange(0, i as int) =~= self.fields@);
        out
    }
}

/// `f` and `g` show the same values in a table row.
pub open spec fn same_row_values(f: Field, g: Field) -> bool {
    &&& f.name@ == g.name@
    &&& f.offset == g.offset
    &&& f.layout.size == g.layout.size
    &&& f.layout.name@ == g.layout.name@
    &&& f.layout.align == g.layout.align
}

proof fn lemma_rows_determined(a: Seq<Field>, b: Seq<Field>)
    requires
        a.len() == b.len(),
        forall|j: int| 0 <= j < a.len() ==> same_row_values(#[trigger] a[j], b[j]),
    ensures
        rows_text(a) == rows_text(b),
    decreases a.len(),
{
    if a.len() > 0 {
        let n = a.len() - 1;
        assert(same_row_values(a[n], b[n]));
        lemma_rows_determined(a.drop_last(), b.drop_last());
    }
}

/// Rendering is a function of the values shown: two layouts with the same
/// name, size and alignment, and fields that show the same values in the
/// same order, render to the same text.
pub proof fn lemma_render_determined(a: LayoutInfo, b: LayoutInfo)
    requires
        a.name@ == b.name@,
        a.size == b.size,
        a.align == b.align,
        a.fields@.len() == b.fields@.len(),
        forall|j: int| 0 <= j < a.fields@.len() ==> same_row_values(#[trigger] a.fields@[j], b.fields@[j]),
    ensures
        render_text(a) == render_text(b),
{
    lemma_rows_determined(a.fields@, b.fields@);
}

} // verus!
