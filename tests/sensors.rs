use hwmon::group::Hwmon;
use hwmon::input::{parse_value, resolve_label, Input, LabelFile, Reading};
use hwmon::name::{is_input_file_name, parse_input_name, Type};
use hwmon::SensorError;

fn value(r: Reading) -> f64 {
    r.raw as f64 / r.divisor as f64
}

fn input(file_name: &str, label_file: LabelFile) -> Input {
    Input::new(parse_input_name(file_name).unwrap(), label_file).unwrap()
}

#[test]
fn names_classify_by_tag() {
    let cases = [
        ("in0_input", Type::Voltage, "in0"),
        ("fan2_input", Type::Fan, "fan2"),
        ("temp1_input", Type::Temp, "temp1"),
        ("power1_input", Type::Other(Some("power".to_string())), "power1"),
        ("curr12_input", Type::Other(Some("curr".to_string())), "curr12"),
        ("Temp3_input", Type::Other(Some("Temp".to_string())), "Temp3"),
        ("inx4_input", Type::Other(Some("inx".to_string())), "inx4"),
    ];
    for (file, typ, stem) in cases {
        let n = parse_input_name(file).unwrap();
        assert_eq!(n.typ, typ, "{}", file);
        assert_eq!(n.stem, stem);
    }
}

#[test]
fn malformed_names_are_refused() {
    for file in [
        "temp_input",
        "1temp_input",
        "_input",
        "temp1input",
        "temp1",
        "",
        "te-mp1_input",
        "temp1a_input",
        "\u{e9}t\u{e9}1_input",
        "temp\u{663}_input",
    ] {
        assert_eq!(parse_input_name(file).unwrap_err(), SensorError::MalformedName, "{}", file);
    }
}

#[test]
fn names_agree_with_the_pattern() {
    let re = regex::Regex::new(r"^([A-Za-z]+)([0-9]+)_").unwrap();
    let names = [
        "temp1_input", "in0_input", "fan10_input", "x9_input", "temp_input", "9_input",
        "temp1-input", "a1_", "a1_b2_input", "ab12c_input", "__input", "Zz01_input",
        "temp1_label", "t\u{e9}mp1_input", "\u{e9}1_input",
    ];
    for name in names {
        let parsed = parse_input_name(name);
        match re.captures(name) {
            Some(c) => {
                let n = parsed.unwrap();
                assert_eq!(n.stem, format!("{}{}", &c[1], &c[2]));
                let expected = match &c[1] {
                    "in" => Type::Voltage,
                    "fan" => Type::Fan,
                    "temp" => Type::Temp,
                    other => Type::Other(Some(other.to_string())),
                };
                assert_eq!(n.typ, expected);
            }
            None => assert!(parsed.is_err(), "{}", name),
        }
    }
}

#[test]
fn input_file_names() {
    assert!(is_input_file_name("temp1_input"));
    assert!(is_input_file_name("_input"));
    assert!(is_input_file_name("weird_input"));
    assert!(!is_input_file_name("temp1_label"));
    assert!(!is_input_file_name("name"));
    assert!(!is_input_file_name("input"));
    assert!(!is_input_file_name("temp1_input2"));
    assert!(!is_input_file_name(""));
}

#[test]
fn label_file_name_follows_the_stem() {
    let n = parse_input_name("temp1_input").unwrap();
    assert_eq!(n.label_file_name(), "temp1_label");
    let n = parse_input_name("in12_input").unwrap();
    assert_eq!(n.label_file_name(), "in12_label");
}

#[test]
fn label_round_trip() {
    let i = input("temp1_input", LabelFile::Contents("CPU Core\n".to_string()));
    assert_eq!(i.label(), "CPU Core");
}

#[test]
fn label_keeps_inner_newlines() {
    let r = resolve_label("temp1", LabelFile::Contents("a\nb\n\n".to_string()));
    assert_eq!(r.unwrap(), "a\nb\n");
    let r = resolve_label("temp1", LabelFile::Contents("\n".to_string()));
    assert_eq!(r.unwrap(), "");
}

#[test]
fn missing_label_falls_back_to_stem() {
    let i = input("temp1_input", LabelFile::NotFound);
    assert_eq!(i.label(), "temp1");
}

#[test]
fn label_without_newline_is_refused() {
    let n = parse_input_name("temp1_input").unwrap();
    let r = Input::new(n, LabelFile::Contents("CPU Core".to_string()));
    assert_eq!(r.unwrap_err(), SensorError::InconsistentLabelFile);
    let r = resolve_label("temp1", LabelFile::Contents(String::new()));
    assert_eq!(r.unwrap_err(), SensorError::InconsistentLabelFile);
}

#[test]
fn unreadable_label_is_a_filesystem_error() {
    let n = parse_input_name("fan1_input").unwrap();
    let r = Input::new(n, LabelFile::Unreadable);
    assert_eq!(r.unwrap_err(), SensorError::Filesystem);
}

#[test]
fn temperature_is_scaled() {
    let i = input("temp1_input", LabelFile::NotFound);
    let r = i.update(Some(b"45230\n"));
    assert_eq!(r, Reading { raw: 45230, divisor: 1000 });
    assert_eq!(value(r), 45.23);
    assert_eq!(i.unit(), "\u{b0}C");
}

#[test]
fn voltage_is_not_scaled() {
    let i = input("in0_input", LabelFile::NotFound);
    let r = i.update(Some(b"3300\n"));
    assert_eq!(r, Reading { raw: 3300, divisor: 1 });
    assert_eq!(value(r), 3300.0);
    assert_eq!(i.unit(), "V");
}

#[test]
fn units_by_kind() {
    assert_eq!(input("fan1_input", LabelFile::NotFound).unit(), " RPM");
    assert_eq!(input("power1_input", LabelFile::NotFound).unit(), "power");
    let other = Input { label: "x".to_string(), typ: Type::Other(None) };
    assert_eq!(other.unit(), "");
}

#[test]
fn malformed_value_reads_zero() {
    let i = input("temp1_input", LabelFile::NotFound);
    assert_eq!(value(i.update(Some(b"abc\n"))), 0.0);
    assert_eq!(value(i.update(Some(b"\xff\xfe\n"))), 0.0);
    assert_eq!(value(i.update(Some(b""))), 0.0);
    assert_eq!(value(i.update(Some(b"\n"))), 0.0);
    assert_eq!(value(i.update(None)), 0.0);
    assert_eq!(parse_value(b"12a4\n"), Err(SensorError::MalformedValue));
    assert_eq!(parse_value(b"-5\n"), Err(SensorError::MalformedValue));
    assert_eq!(parse_value(b"+\n"), Err(SensorError::MalformedValue));
}

#[test]
fn value_limits() {
    assert_eq!(parse_value(b"0\n"), Ok(0));
    assert_eq!(parse_value(b"+7\n"), Ok(7));
    assert_eq!(parse_value(b"007\n"), Ok(7));
    assert_eq!(parse_value(b"4294967295\n"), Ok(u32::MAX));
    assert_eq!(parse_value(b"4294967296\n"), Err(SensorError::MalformedValue));
    assert_eq!(parse_value(b"99999999999999999999999\n"), Err(SensorError::MalformedValue));
    // The last byte is taken for the newline, whatever it is.
    assert_eq!(parse_value(b"123"), Ok(12));
}

#[test]
fn repeated_reads_agree() {
    let i = input("fan1_input", LabelFile::NotFound);
    let bytes = b"1200\n";
    let first = i.update(Some(bytes));
    let again = i.update(Some(bytes));
    assert_eq!(first, again);
    assert_eq!(value(again), 1200.0);
}

#[test]
fn group_keeps_good_inputs_in_order() {
    let names = ["temp1_input", "bad_input", "fan1_input", "in0_input"];
    let candidates: Vec<Result<Input, SensorError>> = names
        .iter()
        .map(|n| parse_input_name(n).and_then(|p| Input::new(p, LabelFile::NotFound)))
        .collect();
    let g = Hwmon::load("coretemp\n", candidates);
    assert_eq!(g.name, "coretemp");
    let labels: Vec<&str> = g.inputs.iter().map(|i| i.label()).collect();
    assert_eq!(labels, vec!["temp1", "fan1", "in0"]);
}

#[test]
fn group_name_without_newline() {
    let g: Hwmon<u8> = Hwmon::load("acpitz", Vec::<Result<u8, SensorError>>::new());
    assert_eq!(g.name, "acpitz");
    assert!(g.inputs.is_empty());
    let g: Hwmon<u8> = Hwmon::load("nct6775\n\n", vec![Err(SensorError::Filesystem), Ok(3)]);
    assert_eq!(g.name, "nct6775\n");
    assert_eq!(g.inputs, vec![3]);
}
