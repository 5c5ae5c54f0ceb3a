use lib::ast::{
    Block, ConstDef, Expr, ExprKind, FnDef, ImplementDef, Item, Literal, StructDef, Type, UseStmt,
};
use lib::driver::{collect_stdlib_items, item_name, merge_with_conflict_check};

fn fn_item(name: &str) -> Item {
    Item::FnDef(FnDef {
        attributes: vec![],
        name: name.to_string(),
        generic_params: vec![],
        params: vec![],
        return_type: None,
        body: Block { stmts: vec![] },
    })
}

fn struct_item(name: &str) -> Item {
    Item::StructDef(StructDef { name: name.to_string(), generic_params: vec![], fields: vec![] })
}

fn use_item(path: &str) -> Item {
    Item::Use(UseStmt { path: path.to_string(), alias: None })
}

#[test]
fn item_names() {
    assert_eq!(item_name(&fn_item("main")), Some("main"));
    assert_eq!(item_name(&struct_item("Point")), Some("Point"));
    let c = Item::ConstDef(ConstDef {
        name: "N".to_string(),
        ty: Type::I32,
        value: Box::new(Expr { id: 0, kind: ExprKind::Literal(Literal::Int32(1)) }),
    });
    assert_eq!(item_name(&c), Some("N"));
    assert_eq!(item_name(&use_item("math")), None);
    let imp = Item::Implement(ImplementDef {
        attributes: vec![],
        generic_params: vec![],
        target_type: Type::Struct("Point".to_string()),
        interface_name: None,
        functions: vec![],
        where_clause: vec![],
    });
    assert_eq!(item_name(&imp), None);
}

#[test]
fn merge_puts_the_standard_library_first() {
    let p = merge_with_conflict_check(vec![fn_item("len"), use_item("x")], vec![fn_item("main"), use_item("x")], "a.xiyi").unwrap();
    let names: Vec<Option<&str>> = p.items.iter().map(item_name).collect();
    assert_eq!(names, vec![Some("len"), None, Some("main"), None]);
}

#[test]
fn merge_refuses_a_redefinition() {
    let r = merge_with_conflict_check(
        vec![fn_item("len"), struct_item("Vec")],
        vec![fn_item("main"), struct_item("Vec"), fn_item("len")],
        "prog.xiyi",
    );
    assert_eq!(
        r.err(),
        Some("error: `Vec` in prog.xiyi conflicts with a standard library definition of the same name.".to_string())
    );
}

#[test]
fn stdlib_items_are_kept_in_order() {
    let items = collect_stdlib_items(vec![
        ("io".to_string(), fn_item("print_line")),
        ("io".to_string(), use_item("core")),
        ("lib".to_string(), use_item("core")),
        ("lib".to_string(), struct_item("Vec")),
    ])
    .unwrap();
    let names: Vec<Option<&str>> = items.iter().map(item_name).collect();
    assert_eq!(names, vec![Some("print_line"), None, None, Some("Vec")]);
}

#[test]
fn stdlib_redefinitions_name_both_modules() {
    let r = collect_stdlib_items(vec![
        ("collections".to_string(), struct_item("Vec")),
        ("io".to_string(), fn_item("print")),
        ("lib".to_string(), fn_item("print")),
        ("lib".to_string(), struct_item("Vec")),
    ]);
    assert_eq!(
        r.err(),
        Some("duplicate definition `print` in stdlib: defined in both `io` and `lib`".to_string())
    );
}
