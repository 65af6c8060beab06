//! The structure analyzer's pure half: building the analysis request
//! for a finished transcript and decoding the service's reply into a
//! chapter list.
//!
//! The reply's text part may wrap the chapter list in prose: decoding
//! takes everything from the first `'['` to the last `']'` and reads
//! it as a JSON array of `{title, content, start_time}` records. A
//! malformed single record falls back field by field; a reply with no
//! bracketed content, or whose bracketed content is not a JSON list,
//! fails with `AnalysisError`.

use crate::errors::PipelineError;
use crate::ids::fresh_id;
use crate::json::{
    as_array_value, as_str_value, get_field, jmodel, json_parse, number_text, obj_lookup,
    parse_json, reply_text, spec_reply_text, JVal,
};
use crate::models::Chapter;
use crate::text::{
    dec_of, escaped, json_escape, parse_number_ms, spec_parse_number_ms, u64_to_string,
};
use vstd::prelude::*;

verus! {

/// The fixed instruction sent ahead of the transcript text.
pub open spec fn analysis_instruction() -> Seq<char> {
    "Analyze this transcription and break it into logical chapters with titles. Return a JSON array with this structure: [{\"title\": \"Chapter Title\", \"content\": \"Chapter content...\", \"start_time\": 0.0}]\n\nTranscription:\n"@
}

/// The JSON request body for one analysis call: a single text part
/// carrying the instruction followed by the full transcript.
pub open spec fn spec_analysis_request_body(text: Seq<char>) -> Seq<char> {
    "{\"contents\":[{\"parts\":[{\"text\":\""@ + escaped(analysis_instruction() + text)
        + "\"}]}]}"@
}

/// Builds the analysis request body around the full transcript text.
pub fn analysis_request_body(text: &str) -> (r: String)
    ensures
        r@ == spec_analysis_request_body(text@),
{
    let prompt = String::from_str(
        "Analyze this transcription and break it into logical chapters with titles. Return a JSON array with this structure: [{\"title\": \"Chapter Title\", \"content\": \"Chapter content...\", \"start_time\": 0.0}]\n\nTranscription:\n",
    ).concat(text);
    let escaped_prompt = json_escape(prompt.as_str());
    let body = String::from_str("{\"contents\":[{\"parts\":[{\"text\":\"").concat(
        escaped_prompt.as_str(),
    ).concat("\"}]}]}");
    body
}

/// Index of the first `'['` in `s`, or `s.len()` if there is none.
pub open spec fn find_lb(s: Seq<char>) -> int
    decreases s.len(),
{
    if s.len() == 0 {
        0
    } else if s[0] == '[' {
        0
    } else {
        1 + find_lb(s.skip(1))
    }
}

/// Index of the last `']'` in `s`, or `-1` if there is none.
pub open spec fn last_rb(s: Seq<char>) -> int
    decreases s.len(),
{
    if s.len() == 0 {
        -1
    } else if s.last() == ']' {
        s.len() - 1
    } else {
        last_rb(s.drop_last())
    }
}

/// A reply text carries bracketed content when a `'['` occurs and a
/// `']'` occurs after it.
pub open spec fn bracket_valid(s: Seq<char>) -> bool {
    find_lb(s) < s.len() && find_lb(s) <= last_rb(s)
}

/// Everything from the first `'['` to the last `']'`, inclusive.
pub open spec fn bracket_sub(s: Seq<char>) -> Seq<char> {
    s.subrange(find_lb(s), last_rb(s) + 1)
}

proof fn lemma_find_lb(u: Seq<char>, m: int)
    requires
        0 <= m <= u.len(),
        forall|k: int| 0 <= k < m ==> u[k] != '[',
        m < u.len() ==> u[m] == '[',
    ensures
        find_lb(u) == m,
    decreases m,
{
    if m > 0 {
        lemma_find_lb(u.skip(1), m - 1);
    }
}

proof fn lemma_last_rb(u: Seq<char>, m: int)
    requires
        -1 <= m < u.len(),
        forall|k: int| m < k < u.len() ==> u[k] != ']',
        m >= 0 ==> u[m] == ']',
    ensures
        last_rb(u) == m,
    decreases u.len(),
{
    if u.len() > 0 {
        if m == u.len() - 1 {
        } else {
            assert(u.last() != ']');
            lemma_last_rb(u.drop_last(), m);
        }
    }
}

/// Extracts the bracketed payload of a reply text, or nothing where no
/// `'['` is followed by a `']'`.
#[verifier::loop_isolation(false)]
pub fn extract_bracketed<'a>(s: &'a str) -> (r: Option<&'a str>)
    ensures
        bracket_valid(s@) ==> (r matches Some(t) && t@ == bracket_sub(s@)),
        !bracket_valid(s@) ==> r is None,
{
    let n = s.unicode_len();
    let mut lb: usize = 0;
    while lb < n && s.get_char(lb) != '['
        invariant
            lb <= n,
            n == s@.len(),
            forall|k: int| 0 <= k < lb ==> s@[k] != '[',
        decreases n - lb,
    {
        lb = lb + 1;
    }
    proof {
        lemma_find_lb(s@, lb as int);
    }
    if lb == n {
        return None;
    }
    // Scan backwards for the last ']'.
    let mut rb: usize = n;
    while rb > 0 && s.get_char(rb - 1) != ']'
        invariant
            rb <= n,
            n == s@.len(),
            forall|k: int| rb <= k < n ==> s@[k] != ']',
        decreases rb,
    {
        rb = rb - 1;
    }
    if rb == 0 {
        proof {
            lemma_last_rb(s@, -1);
        }
        return None;
    }
    proof {
        lemma_last_rb(s@, rb - 1);
    }
    if rb - 1 < lb {
        return None;
    }
    Some(s.substring_char(lb, rb))
}

/// The reply text an analysis reply carries, with a missing text part
/// standing in as an empty list.
pub open spec fn analysis_list_text(j: JVal) -> Seq<char> {
    match spec_reply_text(j) {
        Some(t) => t,
        None => "[]"@,
    }
}

/// Why decoding an analysis reply fails, or `None` where it succeeds.
pub open spec fn analysis_error(body: Seq<char>) -> Option<Seq<char>> {
    match json_parse(body) {
        None => Some("invalid analysis reply"@),
        Some(j) => {
            let t = analysis_list_text(j);
            if !bracket_valid(t) {
                Some("no bracketed chapter list in reply"@)
            } else {
                match json_parse(bracket_sub(t)) {
                    Some(JVal::Arr(items)) => None,
                    Some(_) => Some("chapter payload is not a list"@),
                    None => Some("chapter list is not valid JSON"@),
                }
            }
        },
    }
}

/// The chapter records of an analysis reply, where decoding succeeds.
pub open spec fn analysis_items(body: Seq<char>) -> Option<Seq<JVal>> {
    match json_parse(body) {
        None => None,
        Some(j) => {
            let t = analysis_list_text(j);
            if !bracket_valid(t) {
                None
            } else {
                match json_parse(bracket_sub(t)) {
                    Some(JVal::Arr(items)) => Some(items),
                    _ => None,
                }
            }
        },
    }
}

/// A record's title, or `"Chapter N"` (1-based) where it is missing or
/// not a string.
pub open spec fn spec_chapter_title(elem: JVal, idx: int) -> Seq<char> {
    match elem {
        JVal::Obj(fields) => match obj_lookup(fields, "title"@) {
            Some(JVal::Str(t)) => t,
            _ => "Chapter "@ + dec_of((idx + 1) as nat),
        },
        _ => "Chapter "@ + dec_of((idx + 1) as nat),
    }
}

/// A record's content, or empty where it is missing or not a string.
pub open spec fn spec_chapter_content(elem: JVal) -> Seq<char> {
    match elem {
        JVal::Obj(fields) => match obj_lookup(fields, "content"@) {
            Some(JVal::Str(t)) => t,
            _ => Seq::empty(),
        },
        _ => Seq::empty(),
    }
}

/// A record's start time in milliseconds, or zero where it is missing,
/// not a number, or not a plain decimal numeral.
pub open spec fn spec_chapter_start_ms(elem: JVal) -> int {
    match elem {
        JVal::Obj(fields) => match obj_lookup(fields, "start_time"@) {
            Some(JVal::Num(t)) => match spec_parse_number_ms(t) {
                Some(v) => v as int,
                None => 0,
            },
            _ => 0,
        },
        _ => 0,
    }
}

fn default_title(idx: usize) -> (r: String)
    requires
        idx < usize::MAX,
    ensures
        r@ == "Chapter "@ + dec_of((idx + 1) as nat),
{
    let num = u64_to_string((idx as u64) + 1);
    String::from_str("Chapter ").concat(num.as_str())
}

/// Decodes one analysis reply into its chapter list.
///
/// Each record becomes a chapter with a freshly generated identifier,
/// the fixed placeholder confidence, and no subsections; missing or
/// ill-typed fields fall back one by one, and only a reply without a
/// parsable bracketed list fails the whole call.
#[verifier::loop_isolation(false)]
pub fn decode_analysis_reply(body: &str) -> (r: Result<Vec<Chapter>, PipelineError>)
    ensures
        r matches Err(e) ==> (analysis_error(body@) matches Some(m) && e matches
            PipelineError::AnalysisError(em) && em@ == m),
        r matches Ok(chs) ==> {
            &&& analysis_error(body@) is None
            &&& analysis_items(body@) matches Some(items)
            &&& (analysis_items(body@) matches Some(items) ==> {
                &&& chs@.len() == items.len()
                &&& forall|i: int|
                    0 <= i < items.len() ==> {
                        let c = #[trigger] chs@[i];
                        &&& c.title@ == spec_chapter_title(items[i], i)
                        &&& c.content@ == spec_chapter_content(items[i])
                        &&& c.start_time_ms == spec_chapter_start_ms(items[i])
                        &&& c.confidence_milli == 900
                        &&& c.subsections@.len() == 0
                        &&& c.id@.len() == 36
                    }
            })
        },
{
    let root = match parse_json(body) {
        Some(v) => v,
        None => {
            return Err(PipelineError::AnalysisError(String::from_str("invalid analysis reply")));
        },
    };
    let text = match reply_text(&root) {
        Some(t) => t,
        None => String::from_str("[]"),
    };
    let sub = match extract_bracketed(text.as_str()) {
        Some(s) => s,
        None => {
            return Err(
                PipelineError::AnalysisError(
                    String::from_str("no bracketed chapter list in reply"),
                ),
            );
        },
    };
    let list_root = match parse_json(sub) {
        Some(v) => v,
        None => {
            return Err(
                PipelineError::AnalysisError(String::from_str("chapter list is not valid JSON")),
            );
        },
    };
    let items = match as_array_value(&list_root) {
        Some(a) => a,
        None => {
            return Err(
                PipelineError::AnalysisError(String::from_str("chapter payload is not a list")),
            );
        },
    };
    let ghost gitems = analysis_items(body@).unwrap();

    let mut chapters: Vec<Chapter> = Vec::new();
    let mut i: usize = 0;
    while i < items.len()
        invariant
            i <= items@.len(),
            items@.len() == gitems.len(),
            forall|k: int| 0 <= k < gitems.len() ==> jmodel(#[trigger] items@[k]) == gitems[k],
            chapters@.len() == i,
            forall|k: int|
                0 <= k < i ==> {
                    let c = #[trigger] chapters@[k];
                    &&& c.title@ == spec_chapter_title(gitems[k], k)
                    &&& c.content@ == spec_chapter_content(gitems[k])
                    &&& c.start_time_ms == spec_chapter_start_ms(gitems[k])
                    &&& c.confidence_milli == 900
                    &&& c.subsections@.len() == 0
                    &&& c.id@.len() == 36
                },
        decreases items@.len() - i,
    {
        let elem = &items[i];
        let title = match get_field(elem, "title") {
            Some(tf) => match as_str_value(tf) {
                Some(t) => String::from_str(t),
                None => default_title(i),
            },
            None => default_title(i),
        };
        let content = match get_field(elem, "content") {
            Some(cf) => match as_str_value(cf) {
                Some(c) => String::from_str(c),
                None => String::new(),
            },
            None => String::new(),
        };
        let start_time_ms: u64 = match get_field(elem, "start_time") {
            Some(sf) => match number_text(sf) {
                Some(nt) => match parse_number_ms(nt.as_str()) {
                    Some(v) => v,
                    None => 0,
                },
                None => 0,
            },
            None => 0,
        };
        chapters.push(
            Chapter {
                id: fresh_id(),
                title,
                start_time_ms,
                content,
                confidence_milli: 900,
                subsections: Vec::new(),
            },
        );
        i = i + 1;
    }
    Ok(chapters)
}

} // verus!
