use arkd_core::catalog::{Catalog, TaskSpec};
use arkd_core::json::{to_text, Json};
use arkd_core::server::{catalog_resource, prompt, route_resource, schema_resource, ResourceRoute};
use arkd_core::tools::ToolErrorKind;

fn spec(name: &str, required: &[&str]) -> TaskSpec {
    let req: Vec<Json> = required.iter().map(|r| Json::Str(r.to_string())).collect();
    TaskSpec {
        task_type: name.to_string(),
        summary: format!("{name} summary"),
        notes: "n".to_string(),
        schema: Json::Object(vec![
            ("type".to_string(), Json::Str("object".to_string())),
            ("required".to_string(), Json::Array(req)),
        ]),
        example: Json::Object(vec![]),
    }
}

fn no_suggestions(_: &str) -> Vec<String> {
    Vec::new()
}

#[test]
fn resources_are_routed_by_uri() {
    assert!(matches!(route_resource("arkd://catalog"), Ok(ResourceRoute::Catalog)));
    assert!(matches!(route_resource("arkd://status"), Ok(ResourceRoute::Status)));
    match route_resource("arkd://catalog/Fight") {
        Ok(ResourceRoute::TaskSchema(t)) => assert_eq!(t, "Fight"),
        _ => panic!("expected a schema route"),
    }
    let err = route_resource("arkd://nope").err().unwrap();
    assert!(err.kind == ToolErrorKind::NotFound);
    assert_eq!(err.message, "unknown resource \"arkd://nope\"");
}

#[test]
fn the_catalog_resource_lists_summaries() {
    let cat = Catalog::new(vec![spec("StartUp", &["client_type"]), spec("Depot", &[])]);
    assert_eq!(
        to_text(&catalog_resource(&cat)),
        r#"{"task_types":[{"task_type":"StartUp","summary":"StartUp summary","required":"client_type"},{"task_type":"Depot","summary":"Depot summary","required":"none"}]}"#
    );
}

#[test]
fn a_schema_resource_resolves_the_name() {
    let cat = Catalog::new(vec![spec("Fight", &[])]);
    let body = schema_resource(&cat, "fight", &no_suggestions).ok().unwrap();
    assert_eq!(body.get_str("task_type").unwrap(), "Fight");
    assert_eq!(body.get_str("notes").unwrap(), "n");
    let err = schema_resource(&cat, "Nope", &no_suggestions).err().unwrap();
    assert!(err.kind == ToolErrorKind::InvalidParams);
}

#[test]
fn prompts_are_written_out() {
    let (d, t) = prompt("daily_routine", "1-7").ok().unwrap();
    assert_eq!(d, "Queue and run a standard daily session, then report what happened.");
    assert!(t.starts_with("Run today's Arknights dailies with MAA, farming 1-7.\n\n1. Call status."));
    assert!(t.contains("2. Call maa_daily with stage='1-7' then maa_start.\n"));
    let (_, t) = prompt("daily_routine", "").ok().unwrap();
    assert!(t.contains("farming the last stage played."));
    assert!(t.contains("2. Call maa_daily then maa_start.\n"));
    let (d, t) = prompt("diagnose", "").ok().unwrap();
    assert_eq!(d, "Work out why the current run is failing or stalled.");
    assert!(t.ends_with("Do not stop or restart the run without asking."));
    let err = prompt("haiku", "").err().unwrap();
    assert!(err.kind == ToolErrorKind::InvalidParams);
    assert_eq!(err.message, "unknown prompt \"haiku\"");
}
