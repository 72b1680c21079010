use vstd::prelude::*;
use crate::value::{entries_lookup, Value};

verus! {

broadcast use vstd::string::group_string_axioms;

/// Whether a string is a well-formed language tag, by the grammar the
/// `language_tags` crate implements.
pub uninterp spec fn is_language_tag(s: Seq<char>) -> bool;

/// Relies on `language_tags::LanguageTag::parse`: it accepts exactly the
/// well-formed language tags, a function of the characters alone, and its
/// documented examples include the plain primary subtag `en`.
#[verifier::external_body]
fn language_tag_well_formed(s: &str) -> (r: bool)
    ensures
        r == is_language_tag(s@),
        s@ == "en"@ ==> r,
{
    language_tags::LanguageTag::parse(s).is_ok()
}

/// The options of a detect-intent call that the decoding core models: the
/// language tag placed in the wire request. The optional geolocation pair
/// is a floating-point value and lives with the surrounding transport code,
/// which attaches it to the request this library builds.
#[derive(Debug, PartialEq, Eq)]
pub struct DetectIntentOptions {
    language_code: String,
}

impl DetectIntentOptions {
    /// The configured language tag, as a sequence of characters.
    pub closed spec fn lang(self) -> Seq<char> {
        self.language_code@
    }

    /// A well-formed option set carries a well-formed language tag.
    pub open spec fn wf(self) -> bool {
        is_language_tag(self.lang())
    }

    /// Validates and adopts a language tag: accepts exactly the well-formed
    /// ones.
    pub fn new(language_code: String) -> (r: Option<DetectIntentOptions>)
        ensures
            match r {
                Some(o) => o.wf() && o.lang() == language_code@,
                None => !is_language_tag(language_code@),
            },
    {
        if language_tag_well_formed(language_code.as_str()) {
            Some(DetectIntentOptions { language_code })
        } else {
            None
        }
    }

    /// The configured language tag.
    pub fn language_code(&self) -> (s: &String)
        ensures
            s@ == self.lang(),
    {
        &self.language_code
    }
}

impl Default for DetectIntentOptions {
    /// The default options: English, no geolocation.
    fn default() -> (o: Self)
        ensures
            o.wf(),
            o.lang() == "en"@,
    {
        let tag: String = "en".to_owned();
        let well_formed = language_tag_well_formed(tag.as_str());
        proof {
            assert(well_formed);
        }
        DetectIntentOptions { language_code: tag }
    }
}

/// Builds the wire request body for one detect-intent call:
/// `queryInput.text.{languageCode, text}` beside an empty `queryParams`
/// mapping, ready for the transport layer to attach a configured
/// geolocation to and send.
pub fn build_request(options: &DetectIntentOptions, text: &str) -> (r: Value)
    ensures
        r.is_obj(),
        r.entries().len() == 2,
        r.lookup("queryInput"@) matches Some(qi) && {
            &&& qi.is_obj()
            &&& qi.lookup("text"@) matches Some(t) && {
                &&& t.is_obj()
                &&& t.lookup("languageCode"@) matches Some(lc) && lc matches Value::Str(lcs)
                    && lcs@ == options.lang()
                &&& t.lookup("text"@) matches Some(tv) && tv matches Value::Str(ts) && ts@ == text@
            }
        },
        r.lookup("queryParams"@) matches Some(qp) && qp.is_obj() && qp.entries().len() == 0,
{
    proof {
        reveal_strlit("queryInput");
        reveal_strlit("queryParams");
        reveal_strlit("languageCode");
        reveal_strlit("text");
        assert("queryInput"@.len() == 10);
        assert("queryParams"@.len() == 11);
        assert("languageCode"@.len() == 12);
        assert("text"@.len() == 4);
    }
    let mut text_entries: Vec<(String, Value)> = Vec::new();
    text_entries.push(("languageCode".to_owned(), Value::Str(options.language_code.clone())));
    text_entries.push(("text".to_owned(), Value::Str(text.to_owned())));
    let ghost gte = text_entries@;
    let text_obj = Value::Obj(text_entries);
    proof {
        assert(text_obj.entries() == gte);
        assert(gte.drop_first()[0] == gte[1]);
        assert(text_obj.lookup("languageCode"@) == Some(gte[0].1));
        assert(entries_lookup(gte.drop_first(), "text"@) == Some(gte[1].1));
        assert(text_obj.lookup("text"@) == Some(gte[1].1));
    }
    let mut qi_entries: Vec<(String, Value)> = Vec::new();
    qi_entries.push(("text".to_owned(), text_obj));
    let ghost gqe = qi_entries@;
    let qi = Value::Obj(qi_entries);
    proof {
        assert(qi.lookup("text"@) == Some(gqe[0].1));
    }
    let mut top: Vec<(String, Value)> = Vec::new();
    top.push(("queryInput".to_owned(), qi));
    top.push(("queryParams".to_owned(), Value::empty_obj()));
    let ghost gtop = top@;
    let r = Value::Obj(top);
    proof {
        assert(r.entries() == gtop);
        assert(gtop.drop_first()[0] == gtop[1]);
        assert(r.lookup("queryInput"@) == Some(gtop[0].1));
        assert(entries_lookup(gtop.drop_first(), "queryParams"@) == Some(gtop[1].1));
        assert(r.lookup("queryParams"@) == Some(gtop[1].1));
    }
    r
}

} // verus!
