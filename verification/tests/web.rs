use hybrid_gauge::single::Single;
use hybrid_gauge::web::{
    lhm_readings, parse_tree, read_node, resolve_readings, sensor_numeral, traverse_json_node, JsonNode,
    SensorReading,
};

fn node(text: Option<&str>, id: Option<&str>, value: Option<&str>, children: Vec<JsonNode>) -> JsonNode {
    JsonNode {
        text: text.map(str::to_string),
        sensor_id: id.map(str::to_string),
        value: value.map(str::to_string),
        sensor_type: Some("Temperature".to_string()),
        children,
    }
}

fn values(readings: &[SensorReading]) -> Vec<Option<Single>> {
    readings.iter().map(|r| r.numeral.parse::<f32>().ok().map(|v| Single { bits: v.to_bits() })).collect()
}

#[test]
fn numerals_lose_their_units() {
    assert_eq!(sensor_numeral("55.0 °C"), "55.0");
    assert_eq!(sensor_numeral("1200 RPM"), "1200");
    assert_eq!(sensor_numeral("  65,2 %"), "65.2");
    assert_eq!(sensor_numeral("-3.5V"), "-3.5");
    assert_eq!(sensor_numeral("1.234,5 MHz"), "1.234.5");
    assert_eq!(sensor_numeral("N/A"), "");
    assert_eq!(sensor_numeral("\u{a0}7\u{a0}W"), "7");
    assert_eq!(sensor_numeral(""), "");
    assert_eq!(sensor_numeral("12 34"), "12");
}

#[test]
fn the_first_text_names_the_hardware() {
    let tree = node(
        Some(""),
        None,
        None,
        vec![
            node(Some("PC"), None, None, vec![node(Some("Core"), Some("/cpu/0"), Some("50 °C"), vec![])]),
            node(Some("GPU"), Some("/gpu/0"), Some("60 °C"), vec![node(None, Some("/gpu/1"), Some("61"), vec![])]),
            node(Some("No value"), Some("/x"), None, vec![]),
            node(Some("No id"), None, Some("1"), vec![]),
        ],
    );
    let mut out = Vec::new();
    traverse_json_node(&tree, "", &mut out);
    let seen: Vec<(&str, &str, &str, &str)> = out
        .iter()
        .map(|r| (r.name.as_str(), r.identifier.as_str(), r.hardware_name.as_str(), r.numeral.as_str()))
        .collect();
    assert_eq!(
        seen,
        vec![
            ("Core", "/cpu/0", "PC", "50"),
            ("GPU", "/gpu/0", "GPU", "60"),
            ("", "/gpu/1", "GPU", "61"),
        ]
    );
}

#[test]
fn a_given_name_is_inherited() {
    let tree = node(Some("A"), Some("/a"), Some("1"), vec![node(Some("B"), Some("/b"), Some("2"), vec![])]);
    let mut out = Vec::new();
    traverse_json_node(&tree, "Board", &mut out);
    traverse_json_node(&tree, "", &mut out);
    assert_eq!(out.len(), 4);
    assert!(out[..2].iter().all(|r| r.hardware_name == "Board"));
    assert!(out[2..].iter().all(|r| r.hardware_name == "A"));
}

#[test]
fn json_is_read() {
    let body = r#"{"id":0,"Text":"Sensor","Children":[
        {"Text":"AMD Radeon","SensorId":7,"Value":"9","Children":[
            {"Text":"GPU Core","Type":"Temperature","SensorId":"/gpu-amd/0/temperature/0","Value":"48,5 °C","Children":[]},
            {"Text":"Fan","SensorId":"/gpu-amd/0/fan/0","Value":"- RPM"},
            {"Text":"Odd","SensorId":"/odd","Value":12}
        ]}, 5, null
    ]}"#;
    let readings = lhm_readings(body).unwrap();
    assert_eq!(readings.len(), 2);
    assert_eq!(readings[0].name, "GPU Core");
    assert_eq!(readings[0].sensor_type, "Temperature");
    assert_eq!(readings[0].hardware_name, "Sensor");
    assert_eq!(readings[0].numeral, "48.5");
    assert_eq!(readings[1].sensor_type, "");
    let sensors = resolve_readings(&readings, &values(&readings)).unwrap();
    assert_eq!(sensors.len(), 1);
    assert_eq!(sensors[0].identifier, "/gpu-amd/0/temperature/0");
    assert_eq!(sensors[0].value, Single { bits: 48.5f32.to_bits() });
}

#[test]
fn trees_follow_the_json() {
    let tree = parse_tree(r#"{"Text":"a","Text":"b","Children":[{"Value":"1"},[]]}"#).unwrap();
    assert_eq!(tree.text.as_deref(), Some("b"));
    assert_eq!(tree.children.len(), 2);
    assert_eq!(tree.children[0].value.as_deref(), Some("1"));
    assert!(tree.children[1].children.is_empty());
    assert!(parse_tree("[1,2]").unwrap().text.is_none());
    assert!(parse_tree("{").is_none());
    assert!(lhm_readings("not json").is_none());
    assert_eq!(lhm_readings("{}").unwrap().len(), 0);
}

#[test]
fn only_finite_values_are_kept() {
    let reading = |n: &str| SensorReading {
        name: n.to_string(),
        identifier: n.to_string(),
        sensor_type: String::new(),
        hardware_name: String::new(),
        numeral: String::new(),
    };
    let readings = vec![reading("a"), reading("b"), reading("c")];
    let bits = |v: f32| Some(Single { bits: v.to_bits() });
    let kept = resolve_readings(&readings, &[bits(f32::INFINITY), bits(2.0), None]).unwrap();
    assert_eq!(kept.len(), 1);
    assert_eq!(kept[0].name, "b");
    assert!(resolve_readings(&readings, &[None, None, bits(f32::NAN)]).is_none());
    assert!(resolve_readings(&[], &[]).is_none());
}

#[test]
fn a_parsed_value_is_read() {
    let mut fields = serde_json::Map::new();
    fields.insert("Text".to_string(), serde_json::Value::from("GPU"));
    fields.insert("Type".to_string(), serde_json::Value::from(3));
    let child = serde_json::Value::Object(fields.clone());
    fields.insert("Children".to_string(), serde_json::Value::Array(vec![child]));
    let node = read_node(&serde_json::Value::Object(fields));
    assert_eq!(node.text.as_deref(), Some("GPU"));
    assert!(node.sensor_type.is_none());
    assert_eq!(node.children.len(), 1);
    assert!(node.children[0].children.is_empty());
}
