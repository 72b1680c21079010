use vstd::prelude::*;
use crate::error::DecodeError;
use crate::value::{entries_lookup, Value};

verus! {

broadcast use vstd::string::group_string_axioms;

/// The parameter bag of one response: a mapping from parameter name to
/// value, consumed exactly once by the decoder for the selected variant.
#[derive(Debug, PartialEq, Eq)]
pub struct Parameters(pub Value);

impl Parameters {
    /// The bag as a wire value.
    pub open spec fn bag(self) -> Value {
        self.0
    }

    /// A well-formed bag is a mapping.
    pub open spec fn wf(self) -> bool {
        self.bag().is_obj()
    }
}

/// The typed projection of one wire payload: the optional recognized-intent
/// name, the parameter bag (an empty mapping when the wire field was absent
/// or null), and the confidence score carried through untouched for optional
/// inspection — the decoder never reads it.
#[derive(Debug, PartialEq, Eq)]
pub struct DetectIntentResponse {
    pub intent_name: Option<String>,
    pub parameters: Parameters,
    pub confidence: Option<Value>,
}

/// The `parameters` field of the result envelope, when present, is null or
/// a mapping.
pub open spec fn params_field_ok(q: Value) -> bool {
    match q.lookup("parameters"@) {
        Some(p) => p matches Value::Null || p.is_obj(),
        None => true,
    }
}

/// The `intent` field of the result envelope, when present, is null or a
/// mapping whose `displayName` is a string.
pub open spec fn intent_field_ok(q: Value) -> bool {
    match q.lookup("intent"@) {
        Some(iv) => iv matches Value::Null || (iv.is_obj() && iv.lookup("displayName"@) matches Some(
            Value::Str(_),
        )),
        None => true,
    }
}

/// The payload holds a recognizable result envelope: a mapping with a
/// `queryResult` mapping whose present fields have the right shape.
pub open spec fn response_shape_ok(payload: Value) -> bool {
    &&& payload.lookup("queryResult"@) matches Some(q)
    &&& payload.lookup("queryResult"@) matches Some(q) ==> q.is_obj() && params_field_ok(q)
        && intent_field_ok(q)
}

/// The contract of `DetectIntentResponse::from_value`: extraction succeeds
/// exactly on well-shaped payloads, takes the intent name from
/// `queryResult.intent.displayName` when the service reported one, defaults
/// the parameter bag to an empty mapping when the wire field is absent or
/// null, and carries the confidence value through untouched.
pub open spec fn extract_post(
    payload: Value,
    r: Result<DetectIntentResponse, DecodeError>,
) -> bool {
    match r {
        Ok(resp) => {
            &&& response_shape_ok(payload)
            &&& payload.lookup("queryResult"@) matches Some(q) ==> {
                &&& match q.lookup("parameters"@) {
                    Some(p) => if (p matches Value::Null) {
                        resp.parameters.wf() && resp.parameters.bag().entries().len() == 0
                    } else {
                        resp.parameters.bag() == p
                    },
                    None => resp.parameters.wf() && resp.parameters.bag().entries().len() == 0,
                }
                &&& match q.lookup("intent"@) {
                    Some(iv) => if (iv matches Value::Null) {
                        resp.intent_name is None
                    } else {
                        iv.lookup("displayName"@) matches Some(dv) && dv matches Value::Str(s)
                            && resp.intent_name == Some(s)
                    },
                    None => resp.intent_name is None,
                }
                &&& resp.confidence == q.lookup("intentDetectionConfidence"@)
                &&& resp.parameters.wf()
            }
        },
        Err(e) => e == DecodeError::MalformedResponse && !response_shape_ok(payload),
    }
}

/// Removes and returns the first value bound to `name`, consuming the
/// entries.
#[verifier::loop_isolation(false)]
fn find_entry(entries: Vec<(String, Value)>, name: &String) -> (r: Option<Value>)
    ensures
        r == entries_lookup(entries@, name@),
{
    let mut es = entries;
    let ghost orig = es@;
    while es.len() > 0
        invariant
            entries_lookup(orig, name@) == entries_lookup(es@, name@),
        decreases es@.len(),
    {
        let ghost pre = es@;
        let e = es.remove(0);
        proof {
            assert(e == pre[0]);
            assert(es@ =~= pre.drop_first());
        }
        if e.0.eq(name) {
            proof {
                assert(entries_lookup(pre, name@) == Some(pre[0].1));
            }
            return Some(e.1);
        }
    }
    None
}

/// One pass over the result envelope's entries, extracting the first
/// binding of each of its three recognized fields.
#[verifier::loop_isolation(false)]
fn split_query_result(entries: Vec<(String, Value)>) -> (r: (
    Option<Value>,
    Option<Value>,
    Option<Value>,
))
    ensures
        r.0 == entries_lookup(entries@, "parameters"@),
        r.1 == entries_lookup(entries@, "intent"@),
        r.2 == entries_lookup(entries@, "intentDetectionConfidence"@),
{
    proof {
        reveal_strlit("parameters");
        reveal_strlit("intent");
        reveal_strlit("intentDetectionConfidence");
    }
    let pname: String = "parameters".to_owned();
    let iname: String = "intent".to_owned();
    let cname: String = "intentDetectionConfidence".to_owned();
    let mut es = entries;
    let ghost orig = es@;
    let mut params: Option<Value> = None;
    let mut intent: Option<Value> = None;
    let mut conf: Option<Value> = None;
    while es.len() > 0
        invariant
            params is Some ==> entries_lookup(orig, "parameters"@) == params,
            params is None ==> entries_lookup(orig, "parameters"@) == entries_lookup(
                es@,
                "parameters"@,
            ),
            intent is Some ==> entries_lookup(orig, "intent"@) == intent,
            intent is None ==> entries_lookup(orig, "intent"@) == entries_lookup(es@, "intent"@),
            conf is Some ==> entries_lookup(orig, "intentDetectionConfidence"@) == conf,
            conf is None ==> entries_lookup(orig, "intentDetectionConfidence"@) == entries_lookup(
                es@,
                "intentDetectionConfidence"@,
            ),
        decreases es@.len(),
    {
        let ghost pre = es@;
        let e = es.remove(0);
        proof {
            reveal_strlit("parameters");
            reveal_strlit("intent");
            reveal_strlit("intentDetectionConfidence");
            assert("parameters"@.len() == 10);
            assert("intent"@.len() == 6);
            assert("intentDetectionConfidence"@.len() == 25);
            assert(e == pre[0]);
            assert(es@ =~= pre.drop_first());
        }
        if params.is_none() && e.0.eq(&pname) {
            params = Some(e.1);
        } else if intent.is_none() && e.0.eq(&iname) {
            intent = Some(e.1);
        } else if conf.is_none() && e.0.eq(&cname) {
            conf = Some(e.1);
        }
    }
    (params, intent, conf)
}

impl DetectIntentResponse {
    /// Projects a wire payload onto the raw response model. Pure: the
    /// payload is consumed and nothing else is touched.
    pub fn from_value(payload: Value) -> (r: Result<DetectIntentResponse, DecodeError>)
        ensures
            extract_post(payload, r),
    {
        let ghost gp = payload;
        let entries = match payload {
            Value::Obj(es) => es,
            _ => {
                return Err(DecodeError::MalformedResponse);
            },
        };
        let ghost ge = entries@;
        proof {
            assert(gp.entries() == ge);
        }
        let qrname: String = "queryResult".to_owned();
        let q = match find_entry(entries, &qrname) {
            Some(v) => v,
            None => {
                return Err(DecodeError::MalformedResponse);
            },
        };
        let ghost gq = q;
        proof {
            assert(gp.lookup("queryResult"@) == Some(gq));
        }
        let q_entries = match q {
            Value::Obj(es) => es,
            _ => {
                return Err(DecodeError::MalformedResponse);
            },
        };
        proof {
            assert(gq.entries() == q_entries@);
        }
        let (p_opt, i_opt, c_opt) = split_query_result(q_entries);
        let params: Value = match p_opt {
            None => Value::empty_obj(),
            Some(p) => match p {
                Value::Null => Value::empty_obj(),
                Value::Obj(pes) => Value::Obj(pes),
                _ => {
                    return Err(DecodeError::MalformedResponse);
                },
            },
        };
        let intent_name: Option<String> = match i_opt {
            None => None,
            Some(iv) => {
                let ghost giv = iv;
                match iv {
                    Value::Null => None,
                    Value::Obj(ies) => {
                        proof {
                            assert(giv.entries() == ies@);
                        }
                        let dname: String = "displayName".to_owned();
                        match find_entry(ies, &dname) {
                            Some(dv) => match dv {
                                Value::Str(s) => Some(s),
                                _ => {
                                    return Err(DecodeError::MalformedResponse);
                                },
                            },
                            None => {
                                return Err(DecodeError::MalformedResponse);
                            },
                        }
                    },
                    _ => {
                        return Err(DecodeError::MalformedResponse);
                    },
                }
            },
        };
        Ok(DetectIntentResponse { intent_name, parameters: Parameters(params), confidence: c_opt })
    }
}

} // verus!
