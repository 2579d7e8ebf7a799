use ryu_expenses::api::SERVED_ROUTES;
use ryu_expenses::mcp::tools;

#[test]
fn served_routes_are_the_small_expense_surface() {
    assert_eq!(SERVED_ROUTES, ["/expenses", "/expenses/:id", "/summary"]);
}

#[test]
fn mcp_tools_are_bare_and_descriptive() {
    let table = tools();
    let names = table.iter().map(|tool| tool.name).collect::<Vec<_>>();
    assert_eq!(names, ["list", "summary", "add", "update", "delete"]);
    for tool in &table {
        assert!(tool.description.len() > 40);
        assert_eq!(tool.schema_type, "object");
        assert!(!tool.name.contains('.'));
    }
}

#[test]
fn tool_inputs_have_their_types_and_descriptions() {
    let table = tools();
    let list = &table[0];
    let kinds = list.properties.iter().map(|p| (p.name, p.kind)).collect::<Vec<_>>();
    assert_eq!(
        kinds,
        [
            ("from", "string"),
            ("to", "string"),
            ("category", "string"),
            ("currency", "string"),
            ("limit", "integer"),
        ]
    );
    assert_eq!(list.properties[4].description, Some("Maximum rows, up to 500."));
    assert_eq!(list.properties[2].description, None);
    assert!(table[1].properties.iter().all(|p| p.description.is_none()));
    let add = &table[2];
    assert_eq!(add.properties[2].name, "amountMinor");
    assert_eq!(add.properties[2].kind, "integer");
    assert_eq!(
        add.properties[2].description,
        Some("Positive integer minor units; do not send a floating-point amount.")
    );
    assert_eq!(add.required, ["spentOn", "merchant", "amountMinor", "currency", "category"]);
    assert_eq!(table[3].properties[1].kind, "object");
    assert_eq!(table[3].required, ["id", "patch"]);
    assert_eq!(table[4].required, ["id"]);
    assert!(table[0].description.ends_with("This is read-only and never changes the ledger."));
}
