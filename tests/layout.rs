use layout_lib::{
    arrange_fields, decimal, leaf, resolve, resolve_type, Field, FieldShape, LayoutInfo, Shape,
};

fn leaf_info(name: &'static str, size: usize, align: usize) -> LayoutInfo {
    LayoutInfo::new(name, size, align, Vec::new())
}

fn member(ident: Option<&str>, offset: usize, layout: LayoutInfo) -> FieldShape {
    FieldShape { ident: ident.map(|s| s.to_string()), offset, layout }
}

fn names(info: &LayoutInfo) -> Vec<String> {
    info.fields.iter().map(|f| f.name.clone()).collect()
}

fn offsets(info: &LayoutInfo) -> Vec<usize> {
    info.fields.iter().map(|f| f.offset).collect()
}

#[test]
fn new_keeps_every_value() {
    let info = LayoutInfo::new("A", 24, 8, vec![Field {
        name: "b".to_string(),
        offset: 0,
        layout: leaf_info("u8", 1, 1),
    }]);
    assert_eq!(info.name, "A");
    assert_eq!(info.size, 24);
    assert_eq!(info.align, 8);
    assert_eq!(info.fields.len(), 1);
    assert_eq!(info.fields[0].layout.name, "u8");
}

#[test]
fn default_is_empty() {
    let info = LayoutInfo::default();
    assert_eq!(info.name, "");
    assert_eq!(info.size, 0);
    assert_eq!(info.align, 1);
    assert!(info.fields.is_empty());
}

#[test]
fn decimal_writes_digits() {
    assert_eq!(decimal(0), "0");
    assert_eq!(decimal(7), "7");
    assert_eq!(decimal(10), "10");
    assert_eq!(decimal(1234567), "1234567");
    assert_eq!(decimal(usize::MAX), usize::MAX.to_string());
}

#[test]
fn render_one_field_table() {
    let info = LayoutInfo::new("A", 24, 8, vec![Field {
        name: "b".to_string(),
        offset: 0,
        layout: leaf_info("u8", 1, 1),
    }]);
    let expected = "A (size: 24, align: 8)\n\
                    |  field   | offset |  size  |    type    |\n\
                    | -------- | ------ | ------ | ---------- |\n\
                    | b        | 0      | 1      | u8 (align: 1) |\n";
    assert_eq!(info.render(), expected);
}

#[test]
fn render_without_fields() {
    let info = leaf_info("E", 4, 4);
    assert_eq!(
        info.render(),
        "E (size: 4, align: 4)\n\
         |  field   | offset |  size  |    type    |\n\
         | -------- | ------ | ------ | ---------- |\n"
    );
}

#[test]
fn render_long_cells_are_not_cut() {
    let info = LayoutInfo::new("Wide", 1000, 8, vec![Field {
        name: "a_rather_long_field".to_string(),
        offset: 1234567,
        layout: leaf_info("alloc::string::String", 24, 8),
    }]);
    let text = info.render();
    let last = text.lines().last().unwrap();
    assert_eq!(last, "| a_rather_long_field | 1234567 | 24     | alloc::string::String (align: 8) |");
}

#[test]
fn render_twice_is_identical() {
    let build = || {
        resolve("P", 16, 8, Shape::Struct(vec![
            member(Some("c"), 0, leaf_info("u64", 8, 8)),
            member(Some("b"), 8, leaf_info("u8", 1, 1)),
        ]))
    };
    let one = build();
    assert_eq!(one.render(), one.render());
    assert_eq!(one.render(), build().render());
}

#[test]
fn struct_fields_sorted_by_offset() {
    let info = resolve("A<String>", 40, 8, Shape::Struct(vec![
        member(Some("b"), 32, leaf_info("u8", 1, 1)),
        member(Some("c"), 0, leaf_info("u64", 8, 8)),
        member(Some("d"), 8, leaf_info("alloc::string::String", 24, 8)),
    ]));
    assert_eq!(info.name, "A<String>");
    assert_eq!(info.size, 40);
    assert_eq!(info.align, 8);
    assert_eq!(names(&info), vec!["c", "d", "b"]);
    assert_eq!(offsets(&info), vec![0, 8, 32]);
    for w in info.fields.windows(2) {
        assert!(w[0].offset + w[0].layout.size <= w[1].offset);
    }
    let last = info.fields.last().unwrap();
    assert!(last.offset + last.layout.size <= info.size);
}

#[test]
fn declaration_order_layout_offsets() {
    let info = resolve("B<String>", 40, 8, Shape::Struct(vec![
        member(Some("b"), 0, leaf_info("u8", 1, 1)),
        member(Some("c"), 8, leaf_info("u64", 8, 8)),
        member(Some("d"), 16, leaf_info("alloc::string::String", 24, 8)),
    ]));
    assert_eq!(names(&info), vec!["b", "c", "d"]);
    assert_eq!(offsets(&info), vec![0, 8, 16]);
    assert_eq!(info.fields[2].layout.size, 24);
    assert_eq!(info.fields[2].layout.align, 8);
}

#[test]
fn positional_names_follow_declaration() {
    let info = resolve("T", 16, 8, Shape::Struct(vec![
        member(None, 8, leaf_info("u8", 1, 1)),
        member(None, 0, leaf_info("u64", 8, 8)),
    ]));
    assert_eq!(names(&info), vec!["1", "0"]);
    assert_eq!(offsets(&info), vec![0, 8]);
    assert_eq!(info.fields[0].layout.name, "u64");
}

#[test]
fn positional_names_beyond_nine() {
    let shapes: Vec<FieldShape> =
        (0..12).map(|i| member(None, 11 - i, leaf_info("u8", 1, 1))).collect();
    let fields = arrange_fields(shapes);
    let got: Vec<String> = fields.iter().map(|f| f.name.clone()).collect();
    assert_eq!(got, vec!["11", "10", "9", "8", "7", "6", "5", "4", "3", "2", "1", "0"]);
}

#[test]
fn equal_offsets_keep_declaration_order() {
    let info = resolve("U", 8, 8, Shape::Union(vec![
        member(Some("x"), 0, leaf_info("u64", 8, 8)),
        member(Some("y"), 0, leaf_info("u8", 1, 1)),
        member(Some("z"), 0, leaf_info("u32", 4, 4)),
    ]));
    assert_eq!(names(&info), vec!["x", "y", "z"]);
    assert_eq!(offsets(&info), vec![0, 0, 0]);
}

#[test]
fn stable_among_mixed_offsets() {
    let info = resolve("M", 12, 4, Shape::Struct(vec![
        member(Some("p"), 4, leaf_info("()", 0, 1)),
        member(Some("q"), 0, leaf_info("u32", 4, 4)),
        member(Some("r"), 4, leaf_info("u32", 4, 4)),
        member(Some("s"), 8, leaf_info("u32", 4, 4)),
        member(Some("t"), 4, leaf_info("()", 0, 1)),
    ]));
    assert_eq!(names(&info), vec!["q", "p", "r", "t", "s"]);
}

#[test]
fn enum_reports_summary_only() {
    let info = resolve("E", 16, 8, Shape::Enum);
    assert_eq!(info.name, "E");
    assert_eq!(info.size, 16);
    assert_eq!(info.align, 8);
    assert!(info.fields.is_empty());
}

#[test]
fn zero_field_struct_has_no_fields() {
    let info = resolve("Unit", 0, 1, Shape::Struct(Vec::new()));
    assert_eq!(info.size, 0);
    assert!(info.fields.is_empty());
}

#[test]
fn nested_layout_is_kept_whole() {
    let inner = resolve("Inner", 16, 8, Shape::Struct(vec![
        member(Some("lo"), 8, leaf_info("u8", 1, 1)),
        member(Some("hi"), 0, leaf_info("u64", 8, 8)),
    ]));
    let outer = resolve("Outer", 24, 8, Shape::Struct(vec![
        member(Some("tag"), 16, leaf_info("u8", 1, 1)),
        member(Some("inner"), 0, inner),
    ]));
    assert_eq!(names(&outer), vec!["inner", "tag"]);
    let nested = &outer.fields[0].layout;
    assert_eq!(nested.name, "Inner");
    assert_eq!(names(nested), vec!["hi", "lo"]);
    assert_eq!(offsets(nested), vec![0, 8]);
}

#[test]
fn measured_size_and_alignment() {
    let info = resolve_type::<(u8, u64)>("(u8, u64)", Shape::Struct(vec![
        member(None, 8, leaf::<u8>("u8")),
        member(None, 0, leaf::<u64>("u64")),
    ]));
    assert_eq!(info.size, std::mem::size_of::<(u8, u64)>());
    assert_eq!(info.align, std::mem::align_of::<(u8, u64)>());
    assert_eq!(info.fields[0].layout.size, 8);
    assert_eq!(info.fields[1].layout.size, 1);
    assert_eq!(info.fields[1].layout.align, 1);
    let s = leaf::<String>("alloc::string::String");
    assert_eq!(s.size, std::mem::size_of::<String>());
    assert_eq!(s.align, std::mem::align_of::<String>());
    assert!(s.fields.is_empty());
}
