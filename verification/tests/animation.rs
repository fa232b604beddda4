use smil_animation::animation::{AnimationSpec, AnimationTarget, CalcMode, RotateSpec, TransformType};
use smil_animation::clock::{ClockUnit, ClockValue};
use smil_animation::document::Document;
use smil_animation::element::{
    collect_value_strings, component_tokens, key_spline_fields, number_fields, value_format_for,
    ValueFormat,
};
use smil_animation::loader::load_document;
use smil_animation::number::reads_as_number;
use smil_animation::timing::{AnimationFill, RepeatSpec, TimingSpec};

fn load(svg: &str) -> Document {
    load_document(svg.as_bytes()).unwrap().1
}

fn first_animation(doc: &Document) -> usize {
    (0..doc.len())
        .find(|&i| matches!(doc.node(i).tag.as_deref(), Some("animate" | "set" | "animateTransform" | "animateMotion")))
        .unwrap()
}

fn joined(from: &str, by: &str) -> String {
    format!("{from}|{by}")
}

fn parse(svg: &str) -> Option<AnimationSpec> {
    let doc = load(svg);
    AnimationSpec::parse(&doc, first_animation(&doc), &joined)
}

fn value_strings(parent: &str, animation: &str) -> Vec<String> {
    let doc = load(&format!(r#"<svg xmlns="http://www.w3.org/2000/svg"><{parent}>{animation}</{}></svg>"#, parent.split(' ').next().unwrap()));
    collect_value_strings(&doc, first_animation(&doc), &joined)
}

fn numbers(text: &str) -> Vec<f64> {
    component_tokens(text).iter().map(|token| token.parse::<f64>().unwrap()).collect()
}

fn strings(list: &[&str]) -> Vec<String> {
    list.iter().map(|s| s.to_string()).collect()
}

#[test]
fn parses_opacity_animate() {
    let animation = parse(
        r#"<svg xmlns="http://www.w3.org/2000/svg" viewBox="0 0 10 10">
            <rect width="10" height="10">
                <animate attributeName="opacity" values="1;0.3;1" dur="1s"/>
            </rect>
        </svg>"#,
    )
    .unwrap();
    assert_eq!(animation.target, AnimationTarget::Attribute("opacity".to_string()));
    assert_eq!(animation.format, ValueFormat::Scalar);
    assert_eq!(animation.values, strings(&["1", "0.3", "1"]));
    let values: Vec<Vec<f64>> = animation.values.iter().map(|v| numbers(v)).collect();
    assert_eq!(values, vec![vec![1.0], vec![0.3], vec![1.0]]);
    assert!(animation.discrete_values.is_empty());
    assert_eq!(animation.calc_mode, CalcMode::Linear);
    assert_eq!(
        animation.timing.duration,
        Some(ClockValue::Timecount { number: "1".to_string(), unit: ClockUnit::Seconds })
    );
}

#[test]
fn parses_rotate_transform() {
    let animation = parse(
        r#"<svg xmlns="http://www.w3.org/2000/svg" viewBox="0 0 10 10">
            <g>
                <animateTransform attributeName="transform" type="rotate"
                    from="0 5 5" to="90 5 5" dur="1s"/>
            </g>
        </svg>"#,
    )
    .unwrap();
    assert_eq!(animation.target, AnimationTarget::Transform(TransformType::Rotate));
    assert_eq!(animation.values, strings(&["0 5 5", "90 5 5"]));
    assert_eq!(component_tokens(&animation.values[0]), strings(&["0", "5", "5"]));
    let values: Vec<Vec<f64>> = animation.values.iter().map(|v| numbers(v)).collect();
    assert_eq!(values, vec![vec![0.0, 5.0, 5.0], vec![90.0, 5.0, 5.0]]);
}

#[test]
fn set_is_discrete_and_keeps_strings() {
    let animation = parse(
        r#"<svg xmlns="http://www.w3.org/2000/svg"><rect>
            <set attributeName=" visibility " to="hidden" begin="1s" calcMode="linear"/>
        </rect></svg>"#,
    )
    .unwrap();
    assert_eq!(animation.target, AnimationTarget::Attribute("visibility".to_string()));
    assert_eq!(animation.format, ValueFormat::DiscreteString);
    assert_eq!(animation.calc_mode, CalcMode::Discrete);
    assert!(animation.values.is_empty());
    assert_eq!(animation.discrete_values, strings(&["hidden"]));
    assert_eq!(
        animation.timing.begin,
        vec![Some(ClockValue::Timecount { number: "1".to_string(), unit: ClockUnit::Seconds })]
    );
}

#[test]
fn from_by_is_summed_by_the_caller() {
    let animation = parse(
        r#"<svg xmlns="http://www.w3.org/2000/svg"><rect>
            <animate attributeName="width" from=" 10 " by="5" dur="2s" fill="freeze" repeatCount="indefinite"/>
        </rect></svg>"#,
    )
    .unwrap();
    assert_eq!(animation.values, strings(&["10", "10|5"]));
    assert_eq!(animation.timing.fill, AnimationFill::Freeze);
    assert_eq!(animation.timing.repeat, RepeatSpec::Indefinite);
}

#[test]
fn motion_reads_path_rotate_and_modes() {
    let animation = parse(
        r##"<svg xmlns="http://www.w3.org/2000/svg">
            <path id="track" d="M0,0 L1,1"/>
            <rect><animateMotion path="M0,0 L100,0" dur="1s" rotate="auto-reverse" calcMode="paced"
                additive="sum" accumulate=" sum " keyTimes="0; 0.5 ;1" keySplines="0 0 1 1; ; .5 0 .5 1">
                <mpath href="#track"/></animateMotion></rect>
        </svg>"##,
    )
    .unwrap();
    assert_eq!(animation.target, AnimationTarget::Motion);
    assert_eq!(animation.motion_path.as_deref(), Some("M0,0 L100,0"));
    assert_eq!(animation.motion_rotate, RotateSpec::AutoReverse);
    assert_eq!(animation.calc_mode, CalcMode::Paced);
    assert!(animation.additive);
    assert!(animation.accumulate);
    assert_eq!(animation.key_times, Some(strings(&["0", "0.5", "1"])));
    assert_eq!(
        animation.key_splines,
        Some(vec![strings(&["0", "0", "1", "1"]), strings(&[".5", "0", ".5", "1"])])
    );
}

#[test]
fn motion_path_falls_back_to_mpath() {
    let animation = parse(
        r##"<svg xmlns="http://www.w3.org/2000/svg">
            <path id="track" d="M0,0 L1,1"/>
            <rect><animateMotion dur="1s" rotate="30"><mpath href="#track"/></animateMotion></rect>
        </svg>"##,
    )
    .unwrap();
    assert_eq!(animation.motion_path.as_deref(), Some("M0,0 L1,1"));
    assert_eq!(animation.motion_rotate, RotateSpec::Angle("30".to_string()));
}

#[test]
fn animate_without_attribute_name_is_skipped() {
    assert!(parse(r#"<svg xmlns="http://www.w3.org/2000/svg"><rect><animate to="1"/></rect></svg>"#).is_none());
    let doc = load(r#"<svg xmlns="http://www.w3.org/2000/svg"><rect/></svg>"#);
    assert!(AnimationSpec::parse(&doc, 1, &joined).is_none());
}

#[test]
fn defaults_when_attributes_are_unknown() {
    let animation = parse(
        r#"<svg xmlns="http://www.w3.org/2000/svg"><g>
            <animateTransform type="wobble" calcMode="bouncy" values="1;2"/></g></svg>"#,
    )
    .unwrap();
    assert_eq!(animation.target, AnimationTarget::Transform(TransformType::Translate));
    assert_eq!(animation.calc_mode, CalcMode::Linear);
    assert_eq!(animation.motion_rotate, RotateSpec::Unspecified);
    assert_eq!(animation.motion_path, None);
    assert_eq!(
        animation.timing,
        TimingSpec { begin: Vec::new(), duration: None, repeat: RepeatSpec::Unspecified, end: None, fill: AnimationFill::Remove }
    );
}

#[test]
fn value_formats() {
    for name in ["fill", "stroke", "stop-color", "flood-color"] {
        assert_eq!(value_format_for(name), ValueFormat::Color);
    }
    for name in ["visibility", "display"] {
        assert_eq!(value_format_for(name), ValueFormat::DiscreteString);
    }
    assert_eq!(value_format_for("opacity"), ValueFormat::Scalar);
}

#[test]
fn value_strings_cases() {
    let rect = r#"rect width=" 10 ""#;
    assert_eq!(value_strings(rect, r#"<animate attributeName="width" values=" 1 ;; 2;"/>"#), strings(&["1", "2"]));
    assert_eq!(value_strings(rect, r#"<animate attributeName="width" from="1" to=" 3"/>"#), strings(&["1", "3"]));
    assert_eq!(value_strings(rect, r#"<animate attributeName="width" by="3"/>"#), Vec::<String>::new());
    assert_eq!(value_strings(rect, r#"<animate attributeName="width" from="1"/>"#), Vec::<String>::new());
    assert_eq!(
        value_strings(rect, r#"<animate attributeName="width" values="4" from="1" to="2"/>"#),
        strings(&["4"])
    );
}

#[test]
fn to_animation_runs_from_the_target_value() {
    let rect = r#"rect width="10" height="10""#;
    assert_eq!(value_strings(rect, r#"<animate attributeName=" width " to="20" dur="1s"/>"#), strings(&["10", "20"]));
    assert_eq!(value_strings(rect, r#"<animate attributeName="x" to="3"/>"#), strings(&["3"]));
    assert_eq!(value_strings(rect, r#"<set attributeName="width" to="3"/>"#), strings(&["3"]));
}

#[test]
fn value_list_entries_are_trimmed_and_non_empty() {
    let values = value_strings("g", r#"<animate attributeName="x" values=" a ;&#9;; b c ;"/>"#);
    assert_eq!(values, strings(&["a", "b c"]));
    for value in &values {
        assert!(!value.is_empty());
        assert_eq!(value.trim(), value);
    }
}

#[test]
fn unknown_attribute_name_is_skipped() {
    assert!(parse(r#"<svg xmlns="http://www.w3.org/2000/svg"><rect><animate attributeName="bogus" to="1"/></rect></svg>"#).is_none());
    assert!(parse(r#"<svg xmlns="http://www.w3.org/2000/svg"><rect><set attributeName="bogus" to="1"/></rect></svg>"#).is_none());
    assert!(parse(r#"<svg xmlns="http://www.w3.org/2000/svg"><rect><animate attributeName="stroke-width" to="1"/></rect></svg>"#).is_some());
}

#[test]
fn mismatched_key_times_are_skipped() {
    assert!(parse(
        r#"<svg xmlns='http://www.w3.org/2000/svg' viewBox='0 0 10 10'><rect width='10' height='10'><animate attributeName='opacity' values='0;1' keyTimes='0;0.5;1' dur='1s'/></rect></svg>"#
    )
    .is_none());
    let fitting = parse(
        r#"<svg xmlns='http://www.w3.org/2000/svg'><rect><animate attributeName='opacity' values='0;1;0' keyTimes='0;0.5;1' dur='1s'/></rect></svg>"#,
    )
    .unwrap();
    assert_eq!(fitting.key_times, Some(strings(&["0", "0.5", "1"])));
}

#[test]
fn mismatched_key_splines_are_skipped_in_spline_mode() {
    let svg = |mode: &str, splines: &str| {
        format!(
            r#"<svg xmlns='http://www.w3.org/2000/svg'><rect><animate attributeName='x' values='0;5;10' calcMode='{mode}' keySplines='{splines}' dur='1s'/></rect></svg>"#
        )
    };
    assert!(parse(&svg("spline", "0 0 1 1")).is_none());
    assert!(parse(&svg("spline", "0 0 1 1; .5 0 .5 1")).is_some());
    assert!(parse(&svg("linear", "0 0 1 1")).is_some());
}

#[test]
fn token_splitting() {
    assert_eq!(component_tokens("1, 2\t3\n 4"), strings(&["1", "2", "3", "4"]));
    assert_eq!(number_fields(" 0; 0.8 ;x", ';'), strings(&["0", "0.8"]));
    assert_eq!(number_fields("0;1;", ';'), strings(&["0", "1"]));
    assert_eq!(key_spline_fields(".42 0 .58 1; ;0 0 1 1"), vec![strings(&[".42", "0", ".58", "1"]), strings(&["0", "0", "1", "1"])]);
    assert_eq!(key_spline_fields("0 0 1 1; 0 0 1; 0,0,1,1; .5 x 0 .5 1"), vec![strings(&["0", "0", "1", "1"]), strings(&[".5", "0", ".5", "1"])]);
}

#[test]
fn motion_without_a_path_is_skipped() {
    assert!(parse(
        r##"<svg xmlns="http://www.w3.org/2000/svg"><rect><animateMotion dur="1s"><mpath href="#missing"/></animateMotion></rect></svg>"##
    )
    .is_none());
    assert!(parse(r#"<svg xmlns="http://www.w3.org/2000/svg"><rect><animateMotion dur="1s"/></rect></svg>"#).is_none());
}

#[test]
fn indefinite_repeat_duration_repeats_indefinitely() {
    let animation = parse(
        r#"<svg xmlns="http://www.w3.org/2000/svg"><rect><animate attributeName="x" values="0;1" dur="1s" repeatDur=" indefinite"/></rect></svg>"#,
    )
    .unwrap();
    assert_eq!(animation.timing.repeat, RepeatSpec::Indefinite);
    let counted = parse(
        r#"<svg xmlns="http://www.w3.org/2000/svg"><rect><animate attributeName="x" values="0;1" dur="1s" repeatCount="2" repeatDur="indefinite"/></rect></svg>"#,
    )
    .unwrap();
    assert_eq!(counted.timing.repeat, RepeatSpec::Count("2".to_string()));
}

#[test]
fn key_times_count_only_numbers() {
    for key_times in ["0;1;", "0;;1", " 0 ; x ; 1 "] {
        let animation = parse(&format!(
            r#"<svg xmlns='http://www.w3.org/2000/svg'><rect><animate attributeName='opacity' values='0;1' keyTimes='{key_times}' dur='1s'/></rect></svg>"#
        ))
        .unwrap();
        assert_eq!(animation.key_times, Some(strings(&["0", "1"])));
    }
}

#[test]
fn numbers_read_as_the_standard_library_reads_them() {
    let accepted = ["1", "-1.5e3", ".5", "5.", "+inf", "Infinity", "NaN", "1E-2", "007", "-0"];
    let refused = ["", ".", "1e", "e5", " 1", "1 ", "1.2.3", "0x10", "1_0", "infinit", "--1", "1e+", "+"];
    for text in accepted {
        assert!(reads_as_number(text), "{text}");
        assert!(text.parse::<f64>().is_ok(), "{text}");
    }
    for text in refused {
        assert!(!reads_as_number(text), "{text}");
        assert!(text.parse::<f64>().is_err(), "{text}");
    }
}
