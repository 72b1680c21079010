use typed_dialogflow::request::{build_request, DetectIntentOptions};
use typed_dialogflow::tag::canonical_tag;
use typed_dialogflow::value::Value;

fn s(x: &str) -> String {
    x.to_string()
}

#[test]
fn canonical_tag_lowers_word_boundaries() {
    assert_eq!(canonical_tag("ThankYou"), s("thank_you"));
    assert_eq!(canonical_tag("Hello"), s("hello"));
    assert_eq!(canonical_tag("A"), s("a"));
    assert_eq!(canonical_tag(""), s(""));
}

#[test]
fn canonical_tag_is_idempotent_on_examples() {
    let once = canonical_tag("SetAlarmClock");
    assert_eq!(once, s("set_alarm_clock"));
    assert_eq!(canonical_tag(&once), once);
    assert_eq!(canonical_tag("already_lower"), s("already_lower"));
}

#[test]
fn options_accept_well_formed_language_tags() {
    let o = DetectIntentOptions::new(s("en-US")).unwrap();
    assert_eq!(o.language_code(), "en-US");
    assert!(DetectIntentOptions::new(s("de")).is_some());
}

#[test]
fn options_reject_malformed_language_tags() {
    assert!(DetectIntentOptions::new(s("not a language tag !!")).is_none());
    assert!(DetectIntentOptions::new(s("")).is_none());
}

#[test]
fn default_options_use_english() {
    let o = DetectIntentOptions::default();
    assert_eq!(o.language_code(), "en");
}

#[test]
fn build_request_shapes_the_wire_body() {
    let o = DetectIntentOptions::new(s("fr")).unwrap();
    let req = build_request(&o, "quel temps fait-il");
    let expected = Value::Obj(vec![
        (
            s("queryInput"),
            Value::Obj(vec![(
                s("text"),
                Value::Obj(vec![
                    (s("languageCode"), Value::Str(s("fr"))),
                    (s("text"), Value::Str(s("quel temps fait-il"))),
                ]),
            )]),
        ),
        (s("queryParams"), Value::Obj(vec![])),
    ]);
    assert_eq!(req, expected);
}
