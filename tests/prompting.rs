use configuranator_demo::area::{folder_or_default, prompt_area, prompt_point};
use configuranator_demo::builder::{build_config, Pending};
use configuranator_demo::prompt::{
    prompt, prompt_dataset_name, prompt_file_name, prompt_str_input, prompt_tuple, Script,
};
use configuranator_demo::scalar::parse_bool;
use configuranator_demo::schema::{Point, SauronConfig};
use configuranator_demo::text::{ends_with_text, same_text};
use configuranator_demo::tuple::{parse_tuple, split_pair, TupleError};

fn read_real(t: &str) -> Option<f64> {
    t.parse::<f64>().ok()
}

fn read_int(t: &str) -> Option<i32> {
    t.parse::<i32>().ok()
}

fn ip(t: &str) -> Option<String> {
    let parts: Vec<&str> = t.split('.').collect();
    if parts.len() == 4 && parts.iter().all(|p| p.parse::<u8>().is_ok()) {
        Some(t.to_string())
    } else {
        None
    }
}

fn script(lines: &[&str]) -> Script {
    Script::new(lines.iter().map(|l| l.to_string()).collect())
}

#[test]
fn tuple_of_reals() {
    assert_eq!(parse_tuple("3.0, 4.0", &read_real), Ok((3.0, 4.0)));
}

#[test]
fn tuple_with_three_parts() {
    assert_eq!(
        parse_tuple("1,2,3", &read_int),
        Err(TupleError::WrongCount("1,2,3".to_string()))
    );
}

#[test]
fn tuple_without_comma() {
    assert_eq!(
        parse_tuple("12", &read_int),
        Err(TupleError::WrongCount("12".to_string()))
    );
}

#[test]
fn tuple_first_unreadable() {
    assert_eq!(parse_tuple("a,2", &read_int), Err(TupleError::FirstValue));
}

#[test]
fn tuple_second_unreadable() {
    assert_eq!(parse_tuple("1, b", &read_int), Err(TupleError::SecondValue));
}

#[test]
fn tuple_error_messages() {
    assert_eq!(
        TupleError::WrongCount("1,2,3".to_string()).message(),
        "Invalid tuple: expected two comma-separated values, got '1,2,3'"
    );
    assert_eq!(
        parse_tuple("", &read_int).unwrap_err().message(),
        "Invalid tuple: expected two comma-separated values, got ''"
    );
    assert_eq!(TupleError::FirstValue.message(), "Error parsing first value");
    assert_eq!(TupleError::SecondValue.message(), "Error parsing second value");
}

#[test]
fn split_pair_trims_parts() {
    assert_eq!(
        split_pair("  4096 ,2160  "),
        Some(("4096".to_string(), "2160".to_string()))
    );
    assert_eq!(split_pair(","), Some((String::new(), String::new())));
    assert_eq!(split_pair("1,,2"), None);
}

#[test]
fn bool_words() {
    assert_eq!(parse_bool("true"), Some(true));
    assert_eq!(parse_bool("false"), Some(false));
    assert_eq!(parse_bool("True"), None);
    assert_eq!(parse_bool(""), None);
}

#[test]
fn text_comparisons() {
    assert!(same_text("COCO", "COCO"));
    assert!(!same_text("COCO", "coco"));
    assert!(ends_with_text("cfg.toml", ".toml"));
    assert!(!ends_with_text("cfg", ".toml"));
    assert!(!ends_with_text("toml", ".toml"));
}

#[test]
fn prompt_returns_first_valid_value() {
    let mut s = script(&["abc", "", "  42  ", "7"]);
    assert_eq!(prompt(&mut s, &read_int), Some(42));
    assert_eq!(s.pos, 3);
}

#[test]
fn prompt_without_valid_line_ends_empty() {
    let mut s = script(&["x", "y"]);
    assert_eq!(prompt(&mut s, &read_int), None);
    assert_eq!(s.pos, 2);
}

#[test]
fn prompt_str_input_trims() {
    let mut s = script(&["  model.onnx \n"]);
    assert_eq!(prompt_str_input(&mut s), Some("model.onnx".to_string()));
    assert_eq!(prompt_str_input(&mut s), None);
}

#[test]
fn prompt_tuple_retries() {
    let mut s = script(&["1,2,3", "a,2", "93.0, 81.0"]);
    assert_eq!(prompt_tuple(&mut s, &read_real), Some((93.0, 81.0)));
    assert_eq!(s.pos, 3);
}

#[test]
fn dataset_gate() {
    let mut s = script(&["coco", "VOC", "COCO", "COCO"]);
    assert_eq!(prompt_dataset_name(&mut s), Some("COCO".to_string()));
    assert_eq!(s.pos, 3);
}

#[test]
fn dataset_gate_first_entry() {
    let mut s = script(&["COCO"]);
    assert_eq!(prompt_dataset_name(&mut s), Some("COCO".to_string()));
    assert_eq!(s.pos, 1);
}

#[test]
fn file_name_gate() {
    let mut s = script(&["cfg", "cfg.toml"]);
    assert_eq!(prompt_file_name(&mut s), Some("cfg.toml".to_string()));
    assert_eq!(s.pos, 2);
    let mut first = script(&["cfg.toml"]);
    assert_eq!(prompt_file_name(&mut first), Some("cfg.toml".to_string()));
    assert_eq!(first.pos, 1);
}

#[test]
fn point_skips_bad_coordinates() {
    let mut s = script(&["x", "1", "", "2"]);
    assert_eq!(prompt_point(&mut s, &read_real), Ok(Point { x: 1.0, y: 2.0 }));
}

#[test]
fn area_keeps_order() {
    let mut s = script(&["yes", "1", "2", "yes", "3", "4", "yes", "5", "6", "no", "rest"]);
    let area = prompt_area(&mut s, &read_real).unwrap();
    assert_eq!(
        area,
        vec![
            Point { x: 1.0, y: 2.0 },
            Point { x: 3.0, y: 4.0 },
            Point { x: 5.0, y: 6.0 }
        ]
    );
    assert_eq!(s.pos, 10);
}

#[test]
fn area_declined_at_once_is_empty() {
    let mut s = script(&["no"]);
    assert_eq!(prompt_area(&mut s, &read_real), Ok(vec![]));
    assert_eq!(s.pos, 1);
    let mut t = script(&["Yes"]);
    assert_eq!(prompt_area(&mut t, &read_real), Ok(vec![]));
}

#[test]
fn area_cut_short() {
    let mut s = script(&["yes", "1"]);
    assert_eq!(prompt_area(&mut s, &read_real), Err(2));
    let mut t = script(&["yes", "x"]);
    assert_eq!(prompt_area(&mut t, &read_real), Err(1));
    let mut u = script(&["yes", "1", "2"]);
    assert_eq!(prompt_area(&mut u, &read_real), Err(0));
}

#[test]
fn folder_default_on_empty_entry() {
    assert_eq!(folder_or_default(String::new(), "/d"), "/d");
    assert_eq!(folder_or_default("/x".to_string(), "/d"), "/x");
}

#[test]
fn model_defaults() {
    let d = SauronConfig::default_with_fov((93.0, 81.0));
    assert_eq!(d.model_path, "./sauron/data/yolov8n.onnx");
    assert_eq!(d.input_size, 640);
    assert_eq!(d.dataset_name, "COCO");
    assert_eq!(d.fov, (93.0, 81.0));
    assert_eq!(d.resolution, (4096, 2160));
    assert_eq!(d.untagged_image_folder, "/feonix-images/untagged");
    assert_eq!(d.detection_image_folder, "/feonix-images/detection");
    assert_eq!(d.mapping_image_folder, "/feonix-images/mapping");
}

const SESSION: &[&str] = &[
    "cfg",
    "cfg.toml",
    "true",
    "12.5",
    "20.0",
    "no",
    "no",
    "yes",
    "1",
    "2",
    "no",
    "10",
    "5",
    "5000",
    "5001",
    "5002",
    "5003",
    "192.168.1.10",
    "10.0.0.2",
    "./model.onnx",
    "640",
    "",
    "",
    "",
    "93.0, 81.0",
    "4096, 2160",
    "VOC",
    "COCO",
];

#[test]
fn end_to_end_session() {
    let mut s = script(SESSION);
    let (name, c) = build_config(&mut s, &read_real, &ip).unwrap();
    assert_eq!(name, "cfg.toml");
    assert!(c.test);
    assert_eq!(c.aircraft_properties.turn_radius, 12.5);
    assert_eq!(c.aircraft_properties.velocity, 20.0);
    assert!(c.coordinates.waypoints.is_empty());
    assert!(c.coordinates.mapping_area.is_empty());
    assert_eq!(c.coordinates.target_area, vec![Point { x: 1.0, y: 2.0 }]);
    assert_eq!(c.coordinates.flying_threshold, 10.0);
    assert_eq!(c.coordinates.mapping_threshold, 5.0);
    assert_eq!(c.commconfig.dad_gnc_port, 5000);
    assert_eq!(c.commconfig.gnc_dad_port, 5001);
    assert_eq!(c.commconfig.dad_sauron_port, 5002);
    assert_eq!(c.commconfig.sauron_dad_port, 5003);
    assert_eq!(c.commconfig.groundstation_ip, "192.168.1.10");
    assert_eq!(c.commconfig.flightcomputer_ip, "10.0.0.2");
    assert_eq!(c.sauron_config.model_path, "./model.onnx");
    assert_eq!(c.sauron_config.input_size, 640);
    assert_eq!(c.sauron_config.untagged_image_folder, "/feonix-images/untagged");
    assert_eq!(c.sauron_config.detection_image_folder, "/feonix-images/detection");
    assert_eq!(c.sauron_config.mapping_image_folder, "/feonix-images/mapping");
    assert_eq!(c.sauron_config.fov, (93.0, 81.0));
    assert_eq!(c.sauron_config.resolution, (4096, 2160));
    assert_eq!(c.sauron_config.dataset_name, "COCO");
    assert_eq!(s.pos, SESSION.len());
}

#[test]
fn session_rejects_bad_port_and_address() {
    let mut lines: Vec<&str> = SESSION.to_vec();
    lines.insert(13, "port");
    lines.insert(18, "999.1.1.1");
    let mut s = script(&lines);
    let (_, c) = build_config(&mut s, &read_real, &ip).unwrap();
    assert_eq!(c.commconfig.dad_gnc_port, 5000);
    assert_eq!(c.commconfig.groundstation_ip, "192.168.1.10");
}

#[test]
fn session_cut_short() {
    let mut s = script(&SESSION[..20]);
    assert_eq!(
        build_config(&mut s, &read_real, &ip).unwrap_err(),
        Pending { field: 16, step: 0 }
    );
    let mut t = script(&SESSION[..9]);
    assert_eq!(
        build_config(&mut t, &read_real, &ip).unwrap_err(),
        Pending { field: 6, step: 2 }
    );
}

#[test]
fn bool_prompt_skips_other_words() {
    let mut s = script(&["yes", "TRUE", " false ", "true"]);
    assert_eq!(prompt(&mut s, &parse_bool), Some(false));
    assert_eq!(s.pos, 3);
}

#[test]
fn signed_integers_in_session() {
    let mut lines: Vec<&str> = SESSION.to_vec();
    lines[13] = "-5000";
    lines[20] = "+640";
    lines.insert(20, "99999999999");
    let mut s = script(&lines);
    let (_, c) = build_config(&mut s, &read_real, &ip).unwrap();
    assert_eq!(c.commconfig.dad_gnc_port, -5000);
    assert_eq!(c.sauron_config.input_size, 640);
    assert_eq!(c.sauron_config.untagged_image_folder, "/feonix-images/untagged");
}
