use flood_mcp::json::{canonical_json, JsonValue};

fn s(x: &str) -> JsonValue {
    JsonValue::Str(x.to_string())
}

fn obj(entries: Vec<(&str, JsonValue)>) -> JsonValue {
    JsonValue::Object(entries.into_iter().map(|(k, v)| (k.to_string(), v)).collect())
}

fn render(v: &JsonValue) -> String {
    match v {
        JsonValue::Null => "null".to_string(),
        JsonValue::Bool(b) => b.to_string(),
        JsonValue::Number(n) => n.clone(),
        JsonValue::Str(x) => format!("{x:?}"),
        JsonValue::Array(a) => format!("[{}]", a.iter().map(render).collect::<Vec<_>>().join(",")),
        JsonValue::Object(es) => {
            format!("{{{}}}", es.iter().map(|(k, v)| format!("{k:?}:{}", render(v))).collect::<Vec<_>>().join(","))
        }
    }
}

#[test]
fn canonical_json_sorts_keys_at_every_depth() {
    let value = obj(vec![
        ("name", s("list_tasks")),
        (
            "inputSchema",
            obj(vec![
                ("type", s("object")),
                ("properties", obj(vec![("limit", JsonValue::Number("20".to_string())), ("cursor", JsonValue::Null)])),
            ]),
        ),
        ("annotations", JsonValue::Array(vec![obj(vec![("z", JsonValue::Bool(true)), ("a", JsonValue::Bool(false))]), s("x")])),
    ]);
    assert_eq!(
        render(&canonical_json(value)),
        r#"{"annotations":[{"a":false,"z":true},"x"],"inputSchema":{"properties":{"cursor":null,"limit":20},"type":"object"},"name":"list_tasks"}"#
    );
}

#[test]
fn canonical_json_keeps_scalars_and_array_order() {
    assert_eq!(render(&canonical_json(JsonValue::Array(vec![s("b"), s("a")]))), r#"["b","a"]"#);
    assert_eq!(render(&canonical_json(JsonValue::Number("1.5".to_string()))), "1.5");
    assert_eq!(render(&canonical_json(obj(vec![]))), "{}");
    assert_eq!(render(&canonical_json(obj(vec![("é", s("1")), ("z", s("2")), ("A", s("3"))]))), r#"{"A":"3","z":"2","é":"1"}"#);
}
