use std::collections::BTreeSet;

use arkd_core::catalog::{self, check_value, json_eq, Catalog, TaskSpec};
use arkd_core::error::Error;
use arkd_core::json::{to_text, Json};

const EXPECTED: &[&str] = &[
    "StartUp",
    "CloseDown",
    "Fight",
    "Recruit",
    "Infrast",
    "Mall",
    "Award",
    "SwitchTheme",
    "Roguelike",
    "Copilot",
    "SSSCopilot",
    "ParadoxCopilot",
    "Depot",
    "OperBox",
    "Reclamation",
    "Custom",
    "SingleStep",
    "VideoRecognition",
];

fn to_json(v: serde_json::Value) -> Json {
    match v {
        serde_json::Value::Null => Json::Null,
        serde_json::Value::Bool(b) => Json::Bool(b),
        serde_json::Value::Number(n) => {
            if let Some(i) = n.as_i64() {
                Json::Int(i)
            } else if let Some(u) = n.as_u64() {
                Json::UInt(u)
            } else {
                let f = n.as_f64().unwrap();
                Json::Float(n.to_string(), f.to_bits())
            }
        }
        serde_json::Value::String(s) => Json::Str(s),
        serde_json::Value::Array(a) => Json::Array(a.into_iter().map(to_json).collect()),
        serde_json::Value::Object(m) => {
            Json::Object(m.into_iter().map(|(k, v)| (k, to_json(v))).collect())
        }
    }
}

fn parse(text: &str) -> Json {
    to_json(serde_json::from_str(text).unwrap())
}

const PLAIN_SCHEMA: &str =
    r#"{"type": "object", "properties": {"enable": {"type": "boolean"}}, "additionalProperties": false}"#;

fn spec(task_type: &str, schema: &str, example: &str) -> TaskSpec {
    TaskSpec {
        task_type: task_type.to_string(),
        summary: format!("The {task_type} task."),
        notes: String::new(),
        schema: parse(schema),
        example: parse(example),
    }
}

/// A catalog of the protocol's task types; the tasks the tests look into closely carry
/// the fields they need.
fn catalog() -> Catalog {
    let mut specs = Vec::new();
    for name in EXPECTED {
        let s = match *name {
            "StartUp" => spec(
                name,
                r#"{"type": "object",
                    "properties": {
                        "enable": {"type": "boolean"},
                        "client_type": {"type": "string",
                                        "enum": ["Official", "Bilibili", "txwy", "YoStarEN", "YoStarJP", "YoStarKR"]},
                        "start_game_enabled": {"type": "boolean"},
                        "account_name": {"type": "string"}
                    },
                    "required": ["client_type"],
                    "additionalProperties": false}"#,
                r#"{"client_type": "Official", "start_game_enabled": true}"#,
            ),
            "Fight" => spec(
                name,
                r#"{"type": "object",
                    "properties": {
                        "enable": {"type": "boolean"},
                        "stage": {"type": "string"},
                        "medicine": {"type": "integer", "minimum": 0},
                        "expiring_medicine": {"type": "integer", "minimum": 0},
                        "stone": {"type": "integer", "minimum": 0},
                        "times": {"type": "integer", "minimum": 0},
                        "series": {"type": "integer", "minimum": -1, "maximum": 6},
                        "drops": {"type": "object"},
                        "report_to_penguin": {"type": "boolean"},
                        "DrGrandet": {"type": "boolean"}
                    },
                    "additionalProperties": false}"#,
                r#"{"stage": "1-7", "times": 3}"#,
            ),
            "Infrast" => spec(
                name,
                r#"{"type": "object",
                    "properties": {
                        "enable": {"type": "boolean"},
                        "mode": {"type": "integer"},
                        "facility": {"type": "array", "minItems": 1,
                                     "items": {"type": "string",
                                               "enum": ["Mfg", "Trade", "Power", "Control", "Reception", "Office", "Dorm", "Processing", "Training"]}},
                        "drones": {"type": "string"},
                        "threshold": {"type": "number", "minimum": 0, "maximum": 1},
                        "replenish": {"type": "boolean"}
                    },
                    "required": ["facility"],
                    "additionalProperties": false}"#,
                r#"{"facility": ["Mfg", "Trade"], "threshold": 0.3}"#,
            ),
            _ => spec(name, PLAIN_SCHEMA, "{}"),
        };
        specs.push(s);
    }
    Catalog::new(specs)
}

/// Near names for an unknown task type, best first, at most three.
fn suggest(cat: &Catalog) -> impl Fn(&str) -> Vec<String> + '_ {
    move |t: &str| {
        let lowered = t.trim().to_lowercase();
        let mut scored: Vec<(String, f64)> = catalog::names(cat)
            .into_iter()
            .map(|n| {
                let s = strsim::normalized_levenshtein(&n, t)
                    .max(strsim::jaro_winkler(&n.to_lowercase(), &lowered) * 0.95);
                (n, s)
            })
            .filter(|(_, s)| *s >= 0.6)
            .collect();
        scored.sort_by(|a, b| b.1.partial_cmp(&a.1).unwrap());
        scored.truncate(3);
        scored.into_iter().map(|(n, _)| n).collect()
    }
}

fn validate(task_type: &str, params: &str) -> Result<(String, Json), Error> {
    let cat = catalog();
    let sug = suggest(&cat);
    catalog::validate(&cat, task_type, parse(params), &sug)
}

#[test]
fn catalog_covers_the_protocol_task_types() {
    let cat = catalog();
    let names: BTreeSet<String> = catalog::names(&cat).into_iter().collect();
    let expected: BTreeSet<String> = EXPECTED.iter().map(|s| s.to_string()).collect();
    assert_eq!(names, expected);
}

#[test]
fn every_example_validates_against_its_own_schema() {
    let cat = catalog();
    let sug = suggest(&cat);
    for name in catalog::names(&cat) {
        let spec = catalog::get(&cat, &name).unwrap();
        let (canonical, params) =
            catalog::validate(&cat, &name, spec.example.copy(), &sug).unwrap();
        assert_eq!(canonical, name);
        assert_eq!(to_text(&params), to_text(&spec.example));
    }
}

#[test]
fn every_schema_is_well_formed() {
    let cat = catalog();
    for name in catalog::names(&cat) {
        let schema = &catalog::get(&cat, &name).unwrap().schema;
        assert_eq!(schema.get_str("type").map(|s| s.as_str()), Some("object"));
        let props = schema.get("properties").unwrap();
        assert!(props.get("enable").is_some());
        assert!(matches!(schema.get("additionalProperties"), Some(Json::Bool(false))));
        let keys: BTreeSet<&str> = match props {
            Json::Object(fields) => fields.iter().map(|(k, _)| k.as_str()).collect(),
            _ => panic!("properties is not an object"),
        };
        if let Some(req) = schema.get("required").and_then(|r| r.as_array()) {
            for r in req {
                assert!(keys.contains(r.as_str().unwrap().as_str()));
            }
        }
    }
}

#[test]
fn task_type_lookup_is_case_insensitive() {
    let cat = catalog();
    let sug = suggest(&cat);
    assert_eq!(catalog::resolve(&cat, "fight", &sug).unwrap(), "Fight");
    assert_eq!(catalog::resolve(&cat, "  ROGUELIKE ", &sug).unwrap(), "Roguelike");
}

#[test]
fn unknown_task_type_suggests_a_near_match() {
    let cat = catalog();
    let sug = suggest(&cat);
    let err = catalog::resolve(&cat, "fite", &sug).unwrap_err();
    assert!(matches!(err, Error::UnknownTaskType(_)));
    let msg = err.message();
    assert!(msg.contains("Fight"), "{msg}");
}

#[test]
fn unknown_field_is_rejected_with_a_suggestion() {
    let err = validate("Fight", r#"{"stagee": "1-7"}"#).unwrap_err();
    let msg = err.message();
    assert!(msg.contains("'stagee' is not a parameter of Fight"), "{msg}");
    assert!(msg.contains("Did you mean 'stage'"), "{msg}");
}

#[test]
fn missing_required_field_is_reported() {
    let err = validate("StartUp", "{}").unwrap_err();
    let msg = err.message();
    assert!(msg.contains("'client_type' is required for StartUp"), "{msg}");
}

#[test]
fn wrong_type_is_reported() {
    let err = validate("Fight", r#"{"times": "five"}"#).unwrap_err();
    let msg = err.message();
    assert!(msg.contains("'times' must be a integer"), "{msg}");
}

#[test]
fn booleans_are_not_accepted_as_numbers() {
    assert!(validate("Fight", r#"{"medicine": true}"#).is_err());
}

#[test]
fn enum_violation_names_the_valid_values() {
    let err = validate("StartUp", r#"{"client_type": "Global"}"#).unwrap_err();
    let msg = err.message();
    assert!(msg.contains("must be one of"), "{msg}");
}

#[test]
fn out_of_range_number_is_reported() {
    let err = validate("Infrast", r#"{"facility": ["Mfg"], "threshold": 1.5}"#).unwrap_err();
    let msg = err.message();
    assert!(msg.contains("'threshold' must be <= 1"), "{msg}");
}

#[test]
fn array_item_types_are_checked() {
    let err = validate("Infrast", r#"{"facility": ["Mfg", "Kitchen"]}"#).unwrap_err();
    let msg = err.message();
    assert!(msg.contains("facility[1]"), "{msg}");
}

#[test]
fn all_problems_are_reported_at_once() {
    let err = validate("Fight", r#"{"times": "5", "medicine": -1, "nope": 1}"#).unwrap_err();
    let msg = err.message();
    assert!(msg.starts_with("3 problem(s)"), "{msg}");
}

#[test]
fn non_object_params_are_rejected() {
    assert!(validate("Fight", r#"["1-7"]"#).is_err());
}

#[test]
fn catalog_summary_lists_every_task() {
    let cat = catalog();
    let summary = catalog::list(&cat);
    assert_eq!(summary.len(), EXPECTED.len());
    let startup = summary.iter().find(|e| e.task_type == "StartUp").unwrap();
    assert_eq!(startup.required, "client_type");
    let depot = summary.iter().find(|e| e.task_type == "Depot").unwrap();
    assert_eq!(depot.required, "none");
}

#[test]
fn a_repeated_name_keeps_its_place_and_takes_the_later_spec() {
    let specs = vec![
        spec("Fight", PLAIN_SCHEMA, "{}"),
        spec("Depot", PLAIN_SCHEMA, "{}"),
        spec("Fight", r#"{"type": "object"}"#, r#"{"x": 1}"#),
    ];
    let cat = Catalog::new(specs);
    assert_eq!(catalog::names(&cat), vec!["Fight".to_string(), "Depot".to_string()]);
    assert_eq!(to_text(&catalog::get(&cat, "Fight").unwrap().example), r#"{"x":1}"#);
}

#[test]
fn validated_params_come_back_unchanged() {
    let (canonical, params) = validate("fight", r#"{"stage": "1-7", "times": 3}"#).unwrap();
    assert_eq!(canonical, "Fight");
    assert_eq!(params.get_str("stage").map(|s| s.as_str()), Some("1-7"));
    assert_eq!(params.get_i64("times"), Some(3));
}

#[test]
fn a_non_object_names_the_type_it_got() {
    let err = validate("Fight", r#"["1-7"]"#).unwrap_err();
    assert!(matches!(err, Error::Validation(_)));
    assert_eq!(err.message(), "Parameters for Fight must be a JSON object, got list.");
}

#[test]
fn below_minimum_is_reported_with_the_bound() {
    let err = validate("Fight", r#"{"medicine": -1}"#).unwrap_err();
    let msg = err.message();
    assert!(msg.contains("'medicine' must be >= 0, got -1"), "{msg}");
}

#[test]
fn too_few_items_are_reported() {
    let err = validate("Infrast", r#"{"facility": []}"#).unwrap_err();
    let msg = err.message();
    assert!(msg.contains("'facility' needs at least 1 item(s), got 0"), "{msg}");
}

#[test]
fn an_enum_suggestion_names_the_close_value() {
    let err = validate("StartUp", r#"{"client_type": "Officail"}"#).unwrap_err();
    let msg = err.message();
    assert!(msg.contains("Did you mean 'Official'?"), "{msg}");
}

#[test]
fn value_type_names_follow_the_python_words() {
    assert_eq!(catalog::value_type_name(&parse("null")), "null");
    assert_eq!(catalog::value_type_name(&parse("true")), "bool");
    assert_eq!(catalog::value_type_name(&parse("3")), "int");
    assert_eq!(catalog::value_type_name(&parse("3.5")), "float");
    assert_eq!(catalog::value_type_name(&parse("\"x\"")), "str");
    assert_eq!(catalog::value_type_name(&parse("[]")), "list");
    assert_eq!(catalog::value_type_name(&parse("{}")), "dict");
}

#[test]
fn append_task_validates_before_reaching_the_core() {
    let cat = catalog();
    let s = suggest(&cat);
    let err = catalog::validate(&cat, "Fight", parse(r#"{"stagee": "1-7"}"#), &s).unwrap_err();
    assert!(matches!(err, Error::Validation(_)));
}

#[test]
fn set_task_params_validates_against_the_original_type() {
    let cat = catalog();
    let s = suggest(&cat);
    assert!(catalog::validate(&cat, "Fight", parse(r#"{"stage": "1-7"}"#), &s).is_ok());
    assert!(catalog::validate(&cat, "Fight", parse(r#"{"facility": ["Mfg"]}"#), &s).is_err());
}

fn pair(x: Json, y: Json) -> Json {
    Json::Object(vec![("x".to_string(), x), ("y".to_string(), y)])
}

#[test]
fn enum_values_compare_as_json_values() {
    let one = || Json::Float("1.0".to_string(), 0x3FF0_0000_0000_0000);
    let a = pair(Json::Int(1), Json::Bool(true));
    let b = Json::Object(vec![("y".to_string(), Json::Bool(true)), ("x".to_string(), Json::UInt(1))]);
    assert!(json_eq(&a, &b));
    assert!(json_eq(&Json::Float("0.0".to_string(), 0), &Json::Float("-0.0".to_string(), 0x8000_0000_0000_0000)));
    assert!(json_eq(&one(), &Json::Float("1.00".to_string(), 0x3FF0_0000_0000_0000)));
    assert!(!json_eq(&Json::Int(1), &one()));
    assert!(!json_eq(&a, &pair(Json::Int(2), Json::Bool(true))));
    assert!(!json_eq(&a, &Json::Object(vec![("x".to_string(), Json::Int(1))])));
    let schema = Json::Object(vec![("enum".to_string(), Json::Array(vec![pair(Json::Int(1), Json::Bool(true))]))]);
    let mut errors = Vec::new();
    check_value("f", &b, &schema, &mut errors);
    assert!(errors.is_empty(), "{errors:?}");
    check_value("f", &pair(Json::Int(1), Json::Bool(false)), &schema, &mut errors);
    assert_eq!(errors.len(), 1);
}
