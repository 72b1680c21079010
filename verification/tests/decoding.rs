use typed_dialogflow::decode::{decode, DecodedIntent, FieldValue};
use typed_dialogflow::descriptor::{
    FieldDescriptor, FieldKind, PayloadKind, VariantDescriptor, VariantSet,
};
use typed_dialogflow::error::DecodeError;
use typed_dialogflow::response::DetectIntentResponse;
use typed_dialogflow::value::Value;

fn s(x: &str) -> String {
    x.to_string()
}

fn obj(entries: Vec<(String, Value)>) -> Value {
    Value::Obj(entries)
}

fn empty_variant(ident: &str, fallback: bool) -> VariantDescriptor {
    VariantDescriptor { ident: s(ident), payload: PayloadKind::Empty, fallback }
}

fn fields_variant(ident: &str, fields: Vec<(&str, FieldKind)>, fallback: bool) -> VariantDescriptor {
    let fds = fields
        .into_iter()
        .map(|(name, kind)| FieldDescriptor { name: s(name), kind })
        .collect();
    VariantDescriptor { ident: s(ident), payload: PayloadKind::Fields(fds), fallback }
}

fn payload(intent: Option<&str>, params: Option<Value>) -> Value {
    let mut qr: Vec<(String, Value)> = Vec::new();
    if let Some(name) = intent {
        qr.push((s("intent"), obj(vec![(s("displayName"), Value::Str(s(name)))])));
    }
    if let Some(p) = params {
        qr.push((s("parameters"), p));
    }
    obj(vec![(s("queryResult"), obj(qr))])
}

fn raw(intent: Option<&str>, params: Option<Value>) -> DetectIntentResponse {
    DetectIntentResponse::from_value(payload(intent, params)).unwrap()
}

#[test]
fn scenario_hello_selects_empty_variant() {
    let set = VariantSet {
        variants: vec![empty_variant("Hello", false), empty_variant("Unrecognized", true)],
    };
    assert!(set.check_wf());
    let r = decode(&raw(Some("hello"), Some(obj(vec![]))), &set);
    assert_eq!(r, Ok(DecodedIntent { variant: 0, fields: vec![] }));
}

#[test]
fn scenario_weather_decodes_declared_field() {
    let set = VariantSet {
        variants: vec![
            fields_variant("Weather", vec![("location", FieldKind::Text)], false),
            empty_variant("Unrecognized", true),
        ],
    };
    assert!(set.check_wf());
    let params = obj(vec![(s("location"), Value::Str(s("Paris")))]);
    let r = decode(&raw(Some("weather"), Some(params)), &set);
    assert_eq!(r, Ok(DecodedIntent { variant: 0, fields: vec![FieldValue::Text(s("Paris"))] }));
}

#[test]
fn scenario_no_intent_selects_fallback() {
    let set = VariantSet {
        variants: vec![empty_variant("Hello", false), empty_variant("Unrecognized", true)],
    };
    let r = decode(&raw(None, Some(obj(vec![]))), &set);
    assert_eq!(r, Ok(DecodedIntent { variant: 1, fields: vec![] }));
}

#[test]
fn scenario_unmapped_name_is_unknown_intent() {
    let set = VariantSet {
        variants: vec![empty_variant("Hello", false), empty_variant("Unrecognized", true)],
    };
    let r = decode(&raw(Some("goodbye"), None), &set);
    assert_eq!(r, Err(DecodeError::UnknownIntent(s("goodbye"))));
}

#[test]
fn scenario_missing_required_field() {
    let set = VariantSet {
        variants: vec![fields_variant("Weather", vec![("location", FieldKind::Text)], false)],
    };
    let r = decode(&raw(Some("weather"), Some(obj(vec![]))), &set);
    assert_eq!(r, Err(DecodeError::MissingField(s("location"))));
}

#[test]
fn empty_variant_ignores_unrelated_parameters() {
    let set = VariantSet { variants: vec![empty_variant("Hello", false)] };
    let params = obj(vec![
        (s("stray"), Value::Num(s("7"))),
        (s("other"), Value::Bool(true)),
    ]);
    let r = decode(&raw(Some("hello"), Some(params)), &set);
    assert_eq!(r, Ok(DecodedIntent { variant: 0, fields: vec![] }));
}

#[test]
fn field_with_incompatible_type_mismatches() {
    let set = VariantSet {
        variants: vec![fields_variant("Weather", vec![("location", FieldKind::Text)], false)],
    };
    let params = obj(vec![(s("location"), Value::Bool(true))]);
    let r = decode(&raw(Some("weather"), Some(params)), &set);
    assert_eq!(r, Err(DecodeError::FieldTypeMismatch(s("location"))));
}

#[test]
fn undeclared_extra_field_never_breaks_success() {
    let set = VariantSet {
        variants: vec![fields_variant("Weather", vec![("location", FieldKind::Text)], false)],
    };
    let params = obj(vec![
        (s("location"), Value::Str(s("Paris"))),
        (s("units"), Value::Str(s("metric"))),
    ]);
    let r = decode(&raw(Some("weather"), Some(params)), &set);
    assert_eq!(r, Ok(DecodedIntent { variant: 0, fields: vec![FieldValue::Text(s("Paris"))] }));
}

#[test]
fn number_and_boolean_fields_coerce() {
    let set = VariantSet {
        variants: vec![fields_variant(
            "SetAlarm",
            vec![("hour", FieldKind::Number), ("repeat", FieldKind::Boolean)],
            false,
        )],
    };
    let params = obj(vec![
        (s("repeat"), Value::Bool(true)),
        (s("hour"), Value::Num(s("7.5"))),
    ]);
    let r = decode(&raw(Some("set_alarm"), Some(params)), &set);
    assert_eq!(
        r,
        Ok(DecodedIntent {
            variant: 0,
            fields: vec![FieldValue::Number(s("7.5")), FieldValue::Boolean(true)],
        })
    );
}

#[test]
fn no_intent_without_fallback_fails() {
    let set = VariantSet { variants: vec![empty_variant("Hello", false)] };
    let r = decode(&raw(None, None), &set);
    assert_eq!(r, Err(DecodeError::NoFallbackVariant));
}

#[test]
fn unmatched_name_never_falls_back_even_with_fallback() {
    let set = VariantSet {
        variants: vec![empty_variant("Hello", false), empty_variant("Unrecognized", true)],
    };
    let r = decode(&raw(Some("greetings"), Some(obj(vec![]))), &set);
    assert_eq!(r, Err(DecodeError::UnknownIntent(s("greetings"))));
}

#[test]
fn non_mapping_payload_is_malformed() {
    let r = DetectIntentResponse::from_value(Value::Str(s("nope")));
    assert_eq!(r, Err(DecodeError::MalformedResponse));
}

#[test]
fn missing_query_result_is_malformed() {
    let r = DetectIntentResponse::from_value(obj(vec![]));
    assert_eq!(r, Err(DecodeError::MalformedResponse));
}

#[test]
fn non_mapping_query_result_is_malformed() {
    let r = DetectIntentResponse::from_value(obj(vec![(s("queryResult"), Value::Null)]));
    assert_eq!(r, Err(DecodeError::MalformedResponse));
}

#[test]
fn non_mapping_parameters_are_malformed() {
    let p = obj(vec![(s("queryResult"), obj(vec![(s("parameters"), Value::Str(s("x")))]))]);
    assert_eq!(DetectIntentResponse::from_value(p), Err(DecodeError::MalformedResponse));
}

#[test]
fn intent_without_display_name_is_malformed() {
    let p = obj(vec![(s("queryResult"), obj(vec![(s("intent"), obj(vec![]))]))]);
    assert_eq!(DetectIntentResponse::from_value(p), Err(DecodeError::MalformedResponse));
}

#[test]
fn non_string_display_name_is_malformed() {
    let p = obj(vec![(
        s("queryResult"),
        obj(vec![(s("intent"), obj(vec![(s("displayName"), Value::Num(s("3")))]))]),
    )]);
    assert_eq!(DetectIntentResponse::from_value(p), Err(DecodeError::MalformedResponse));
}

#[test]
fn absent_parameters_default_to_empty_mapping() {
    let resp = raw(Some("hello"), None);
    assert_eq!(resp.parameters.0, Value::Obj(vec![]));
    assert_eq!(resp.intent_name, Some(s("hello")));
}

#[test]
fn null_parameters_default_to_empty_mapping() {
    let p = obj(vec![(s("queryResult"), obj(vec![(s("parameters"), Value::Null)]))]);
    let resp = DetectIntentResponse::from_value(p).unwrap();
    assert_eq!(resp.parameters.0, Value::Obj(vec![]));
    assert_eq!(resp.intent_name, None);
}

#[test]
fn null_intent_reads_as_absent() {
    let p = obj(vec![(s("queryResult"), obj(vec![(s("intent"), Value::Null)]))]);
    let resp = DetectIntentResponse::from_value(p).unwrap();
    assert_eq!(resp.intent_name, None);
}

#[test]
fn confidence_is_carried_through_untouched() {
    let p = obj(vec![(
        s("queryResult"),
        obj(vec![(s("intentDetectionConfidence"), Value::Num(s("0.87")))]),
    )]);
    let resp = DetectIntentResponse::from_value(p).unwrap();
    assert_eq!(resp.confidence, Some(Value::Num(s("0.87"))));
}

#[test]
fn first_binding_of_a_repeated_key_wins() {
    let p = obj(vec![(
        s("queryResult"),
        obj(vec![
            (s("parameters"), obj(vec![(s("a"), Value::Bool(true))])),
            (s("parameters"), Value::Str(s("shadowed"))),
        ]),
    )]);
    let resp = DetectIntentResponse::from_value(p).unwrap();
    assert_eq!(resp.parameters.0, obj(vec![(s("a"), Value::Bool(true))]));
}

#[test]
fn check_wf_accepts_a_sound_set() {
    let set = VariantSet {
        variants: vec![
            empty_variant("Hello", false),
            fields_variant("Weather", vec![("location", FieldKind::Text)], false),
            empty_variant("Unrecognized", true),
        ],
    };
    assert!(set.check_wf());
}

#[test]
fn check_wf_rejects_colliding_tags() {
    let set = VariantSet {
        variants: vec![empty_variant("FooBar", false), empty_variant("foo_bar", false)],
    };
    assert!(!set.check_wf());
}

#[test]
fn check_wf_rejects_two_fallbacks() {
    let set = VariantSet {
        variants: vec![empty_variant("Unknown", true), empty_variant("Unrecognized", true)],
    };
    assert!(!set.check_wf());
}

#[test]
fn check_wf_rejects_duplicate_field_names() {
    let set = VariantSet {
        variants: vec![fields_variant(
            "Weather",
            vec![("location", FieldKind::Text), ("location", FieldKind::Number)],
            false,
        )],
    };
    assert!(!set.check_wf());
}

#[test]
fn lookup_finds_first_match_only() {
    let v = obj(vec![
        (s("k"), Value::Num(s("1"))),
        (s("k"), Value::Num(s("2"))),
    ]);
    assert_eq!(v.get(&s("k")), Some(&Value::Num(s("1"))));
    assert_eq!(v.get(&s("missing")), None);
}
