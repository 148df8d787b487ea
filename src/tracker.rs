//! The OCR tracker record, and decoding it from the members of a JSON object.

use vstd::arithmetic::div_mod::{lemma_fundamental_div_mod, lemma_fundamental_div_mod_converse};
use vstd::prelude::*;

use crate::json::{
    find_member, integer_of, is_i64_text, json_object_of, member, parse_i64, parse_json_object,
    JsonMember, JsonValue,
};
use crate::text::str_equal;

verus! {

/// A tracker file as read from disk: its path, and its text where it could
/// be opened and read.
pub struct TrackerFile {
    pub path: String,
    pub contents: Option<String>,
}

/// A JSON number, held as the text that the JSON parser renders it as.
pub struct JsonNumber {
    pub text: String,
}

/// The data of one OCR tracker file, with the identifier and item URL that
/// enrichment fills in.
pub struct Record {
    pub orientation: i32,
    pub orientation_conf: JsonNumber,
    pub script: String,
    pub script_conf: JsonNumber,
    pub image_name: String,
    pub word_count: i32,
    pub avg_confidence: JsonNumber,
    pub below_90: JsonNumber,
    pub below_60: JsonNumber,
    pub below_30: JsonNumber,
    pub pid: Option<String>,
    pub pid_url: Option<String>,
}

/// A `Record` with its strings as character sequences.
pub struct RecordView {
    pub orientation: i32,
    pub orientation_conf: Seq<char>,
    pub script: Seq<char>,
    pub script_conf: Seq<char>,
    pub image_name: Seq<char>,
    pub word_count: i32,
    pub avg_confidence: Seq<char>,
    pub below_90: Seq<char>,
    pub below_60: Seq<char>,
    pub below_30: Seq<char>,
    pub pid: Option<Seq<char>>,
    pub pid_url: Option<Seq<char>>,
}

impl View for Record {
    type V = RecordView;

    open spec fn view(&self) -> RecordView {
        RecordView {
            orientation: self.orientation,
            orientation_conf: self.orientation_conf.text@,
            script: self.script@,
            script_conf: self.script_conf.text@,
            image_name: self.image_name@,
            word_count: self.word_count,
            avg_confidence: self.avg_confidence.text@,
            below_90: self.below_90.text@,
            below_60: self.below_60.text@,
            below_30: self.below_30.text@,
            pid: crate::text::opt_chars(self.pid),
            pid_url: crate::text::opt_chars(self.pid_url),
        }
    }
}

/// Why a member did not decode.
#[derive(Clone, Copy, Debug, PartialEq, Eq, Structural)]
pub enum FieldError {
    Missing,
    Invalid,
}

/// The members of an OCR tracker file, in the order the record lists them.
#[derive(Clone, Copy, Debug, PartialEq, Eq, Structural)]
pub enum OcrField {
    Orientation,
    OrientationConf,
    Script,
    ScriptConf,
    ImageName,
    WordCount,
    AvgConfidence,
    Below90,
    Below60,
    Below30,
    Pid,
    PidUrl,
}

/// Why the text of an OCR tracker file gives no record: it is not a JSON
/// object, or a member does not decode (the first, in record order).
#[derive(Clone, Copy, Debug, PartialEq, Eq, Structural)]
pub enum DecodeError {
    NotAnObject,
    Member(OcrField, FieldError),
}

/// `v` reduced to 32 bits, as a cast from `i64` to `i32` does.
pub open spec fn wrap_i32(v: int) -> int {
    let m = v % 4294967296;
    if m < 2147483648 {
        m
    } else {
        m - 4294967296
    }
}

/// The `-` that marks a value as unavailable.
pub open spec fn is_dash(v: JsonValue) -> bool {
    v matches JsonValue::Text(s) && s@ == "-"@
}

/// An integer member that may be `-` (read as 0); any integer that fits in
/// `i64` is taken, reduced to 32 bits.
pub open spec fn dash_int_of(v: Option<JsonValue>) -> Result<i32, FieldError> {
    match v {
        None => Err(FieldError::Missing),
        Some(x) => if is_dash(x) {
            Ok(0)
        } else if x matches JsonValue::Number(t) && is_i64_text(t@) {
            Ok(wrap_i32(integer_of(x->Number_0@)->0) as i32)
        } else {
            Err(FieldError::Invalid)
        },
    }
}

/// An integer member that must fit in `i32`.
pub open spec fn int_of(v: Option<JsonValue>) -> Result<i32, FieldError> {
    match v {
        None => Err(FieldError::Missing),
        Some(JsonValue::Number(t)) => if integer_of(t@) matches Some(n) && i32::MIN <= n
            <= i32::MAX {
            Ok(integer_of(t@)->0 as i32)
        } else {
            Err(FieldError::Invalid)
        },
        Some(_) => Err(FieldError::Invalid),
    }
}

/// A real member that may be `-` (read as `0`).
pub open spec fn dash_real_of(v: Option<JsonValue>) -> Result<Seq<char>, FieldError> {
    match v {
        None => Err(FieldError::Missing),
        Some(x) => if is_dash(x) {
            Ok("0"@)
        } else {
            real_of(v)
        },
    }
}

/// A real member: any JSON number.
pub open spec fn real_of(v: Option<JsonValue>) -> Result<Seq<char>, FieldError> {
    match v {
        None => Err(FieldError::Missing),
        Some(JsonValue::Number(t)) => Ok(t@),
        Some(_) => Err(FieldError::Invalid),
    }
}

/// A string member.
pub open spec fn text_of(v: Option<JsonValue>) -> Result<Seq<char>, FieldError> {
    match v {
        None => Err(FieldError::Missing),
        Some(JsonValue::Text(s)) => Ok(s@),
        Some(_) => Err(FieldError::Invalid),
    }
}

/// An optional string member: absent or `null` is `None`.
pub open spec fn opt_text_of(v: Option<JsonValue>) -> Result<Option<Seq<char>>, FieldError> {
    match v {
        None => Ok(None),
        Some(JsonValue::Null) => Ok(None),
        Some(JsonValue::Text(s)) => Ok(Some(s@)),
        Some(_) => Err(FieldError::Invalid),
    }
}

/// The error for `field` when `r` failed.
pub open spec fn fail<T>(field: OcrField, r: Result<T, FieldError>) -> DecodeError {
    DecodeError::Member(field, r->Err_0)
}

/// The OCR record that the members `ms` describe, or the first member, in
/// record order, that does not decode. Other members are ignored.
pub open spec fn ocr_record_of(ms: Seq<JsonMember>) -> Result<RecordView, DecodeError> {
    let orientation = dash_int_of(member(ms, "orientation"@));
    let orientation_conf = dash_real_of(member(ms, "orientation_conf"@));
    let script = text_of(member(ms, "script"@));
    let script_conf = dash_real_of(member(ms, "script_conf"@));
    let image_name = text_of(member(ms, "image_name"@));
    let word_count = int_of(member(ms, "word_count"@));
    let avg_confidence = real_of(member(ms, "avg_confidence"@));
    let below_90 = real_of(member(ms, "below_90"@));
    let below_60 = real_of(member(ms, "below_60"@));
    let below_30 = real_of(member(ms, "below_30"@));
    let pid = opt_text_of(member(ms, "pid"@));
    let pid_url = opt_text_of(member(ms, "pid_url"@));
    if orientation is Err {
        Err(fail(OcrField::Orientation, orientation))
    } else if orientation_conf is Err {
        Err(fail(OcrField::OrientationConf, orientation_conf))
    } else if script is Err {
        Err(fail(OcrField::Script, script))
    } else if script_conf is Err {
        Err(fail(OcrField::ScriptConf, script_conf))
    } else if image_name is Err {
        Err(fail(OcrField::ImageName, image_name))
    } else if word_count is Err {
        Err(fail(OcrField::WordCount, word_count))
    } else if avg_confidence is Err {
        Err(fail(OcrField::AvgConfidence, avg_confidence))
    } else if below_90 is Err {
        Err(fail(OcrField::Below90, below_90))
    } else if below_60 is Err {
        Err(fail(OcrField::Below60, below_60))
    } else if below_30 is Err {
        Err(fail(OcrField::Below30, below_30))
    } else if pid is Err {
        Err(fail(OcrField::Pid, pid))
    } else if pid_url is Err {
        Err(fail(OcrField::PidUrl, pid_url))
    } else {
        Ok(
            RecordView {
                orientation: orientation->Ok_0,
                orientation_conf: orientation_conf->Ok_0,
                script: script->Ok_0,
                script_conf: script_conf->Ok_0,
                image_name: image_name->Ok_0,
                word_count: word_count->Ok_0,
                avg_confidence: avg_confidence->Ok_0,
                below_90: below_90->Ok_0,
                below_60: below_60->Ok_0,
                below_30: below_30->Ok_0,
                pid: pid->Ok_0,
                pid_url: pid_url->Ok_0,
            },
        )
    }
}

/// The value of an optional member reference.
pub open spec fn opt_value(v: Option<&JsonValue>) -> Option<JsonValue> {
    match v {
        Some(x) => Some(*x),
        None => None,
    }
}

proof fn lemma_neg_mod(mag: int, k: int)
    requires
        mag >= 0,
        k > 0,
    ensures
        (-mag) % k == if mag % k == 0 {
            0
        } else {
            k - mag % k
        },
{
    let q = mag / k;
    let r = mag % k;
    lemma_fundamental_div_mod(mag, k);
    if r == 0 {
        assert(-mag == (-q) * k + 0) by (nonlinear_arith)
            requires
                mag == k * q + r,
                r == 0,
        ;
        lemma_fundamental_div_mod_converse(-mag, k, -q, 0);
    } else {
        assert(-mag == (-q - 1) * k + (k - r)) by (nonlinear_arith)
            requires
                mag == k * q + r,
        ;
        lemma_fundamental_div_mod_converse(-mag, k, -q - 1, k - r);
    }
}

/// `x` reduced to its low 32 bits, read as a signed number.
fn wrap_to_i32(x: i64) -> (r: i32)
    ensures
        r as int == wrap_i32(x as int),
{
    let m: u64 = if x >= 0 {
        (x as u64) % 4294967296
    } else {
        let mag: u64 = (-(x + 1)) as u64 + 1;
        let low: u64 = mag % 4294967296;
        proof {
            lemma_neg_mod(mag as int, 4294967296);
        }
        if low == 0 {
            0
        } else {
            4294967296 - low
        }
    };
    if m < 2147483648 {
        m as i32
    } else {
        (m as i64 - 4294967296) as i32
    }
}

/// Decodes an integer member that may be `-`.
pub fn decode_dash_int(v: Option<&JsonValue>) -> (r: Result<i32, FieldError>)
    ensures
        r == dash_int_of(opt_value(v)),
{
    match v {
        None => Err(FieldError::Missing),
        Some(JsonValue::Text(s)) => {
            if str_equal(s.as_str(), "-") {
                Ok(0)
            } else {
                Err(FieldError::Invalid)
            }
        },
        Some(JsonValue::Number(t)) => {
            match parse_i64(t.as_str()) {
                Some(x) => Ok(wrap_to_i32(x)),
                None => Err(FieldError::Invalid),
            }
        },
        Some(_) => Err(FieldError::Invalid),
    }
}

/// Decodes an integer member that must fit in `i32`.
pub fn decode_int(v: Option<&JsonValue>) -> (r: Result<i32, FieldError>)
    ensures
        r == int_of(opt_value(v)),
{
    match v {
        None => Err(FieldError::Missing),
        Some(JsonValue::Number(t)) => {
            match parse_i64(t.as_str()) {
                Some(x) => {
                    if -2147483648 <= x && x <= 2147483647 {
                        Ok(x as i32)
                    } else {
                        Err(FieldError::Invalid)
                    }
                },
                None => Err(FieldError::Invalid),
            }
        },
        Some(_) => Err(FieldError::Invalid),
    }
}

/// Decodes a real member: any JSON number.
pub fn decode_real(v: Option<&JsonValue>) -> (r: Result<JsonNumber, FieldError>)
    ensures
        match r {
            Ok(n) => real_of(opt_value(v)) == Ok::<Seq<char>, FieldError>(n.text@),
            Err(e) => real_of(opt_value(v)) == Err::<Seq<char>, FieldError>(e),
        },
{
    match v {
        None => Err(FieldError::Missing),
        Some(JsonValue::Number(t)) => Ok(JsonNumber { text: t.clone() }),
        Some(_) => Err(FieldError::Invalid),
    }
}

/// Decodes a real member that may be `-`.
pub fn decode_dash_real(v: Option<&JsonValue>) -> (r: Result<JsonNumber, FieldError>)
    ensures
        match r {
            Ok(n) => dash_real_of(opt_value(v)) == Ok::<Seq<char>, FieldError>(n.text@),
            Err(e) => dash_real_of(opt_value(v)) == Err::<Seq<char>, FieldError>(e),
        },
{
    if let Some(JsonValue::Text(s)) = v {
        if str_equal(s.as_str(), "-") {
            return Ok(JsonNumber { text: "0".to_owned() });
        }
    }
    decode_real(v)
}

/// Decodes a string member.
pub fn decode_text(v: Option<&JsonValue>) -> (r: Result<String, FieldError>)
    ensures
        match r {
            Ok(s) => text_of(opt_value(v)) == Ok::<Seq<char>, FieldError>(s@),
            Err(e) => text_of(opt_value(v)) == Err::<Seq<char>, FieldError>(e),
        },
{
    match v {
        Some(JsonValue::Text(s)) => Ok(s.clone()),
        None => Err(FieldError::Missing),
        Some(_) => Err(FieldError::Invalid),
    }
}

/// Decodes an optional string member.
pub fn decode_opt_text(v: Option<&JsonValue>) -> (r: Result<Option<String>, FieldError>)
    ensures
        match r {
            Ok(s) => opt_text_of(opt_value(v)) == Ok::<Option<Seq<char>>, FieldError>(
                crate::text::opt_chars(s),
            ),
            Err(e) => opt_text_of(opt_value(v)) == Err::<Option<Seq<char>>, FieldError>(e),
        },
{
    match v {
        None => Ok(None),
        Some(JsonValue::Null) => Ok(None),
        Some(JsonValue::Text(s)) => Ok(Some(s.clone())),
        Some(_) => Err(FieldError::Invalid),
    }
}

/// The error for `field`.
fn failed(field: OcrField, problem: FieldError) -> (r: DecodeError)
    ensures
        r == DecodeError::Member(field, problem),
{
    DecodeError::Member(field, problem)
}

/// Decodes the members of an OCR tracker file into a record, with neither
/// identifier nor URL. `-` stands for 0 in `orientation`, `orientation_conf`
/// and `script_conf`.
pub fn decode_ocr_record(ms: &Vec<JsonMember>) -> (r: Result<Record, DecodeError>)
    ensures
        match r {
            Ok(rec) => ocr_record_of(ms@) == Ok::<RecordView, DecodeError>(rec@),
            Err(e) => ocr_record_of(ms@) == Err::<RecordView, DecodeError>(e),
        },
{
    let orientation = match decode_dash_int(find_member(ms, "orientation")) {
        Ok(x) => x,
        Err(e) => return Err(failed(OcrField::Orientation, e)),
    };
    let orientation_conf = match decode_dash_real(find_member(ms, "orientation_conf")) {
        Ok(x) => x,
        Err(e) => return Err(failed(OcrField::OrientationConf, e)),
    };
    let script = match decode_text(find_member(ms, "script")) {
        Ok(x) => x,
        Err(e) => return Err(failed(OcrField::Script, e)),
    };
    let script_conf = match decode_dash_real(find_member(ms, "script_conf")) {
        Ok(x) => x,
        Err(e) => return Err(failed(OcrField::ScriptConf, e)),
    };
    let image_name = match decode_text(find_member(ms, "image_name")) {
        Ok(x) => x,
        Err(e) => return Err(failed(OcrField::ImageName, e)),
    };
    let word_count = match decode_int(find_member(ms, "word_count")) {
        Ok(x) => x,
        Err(e) => return Err(failed(OcrField::WordCount, e)),
    };
    let avg_confidence = match decode_real(find_member(ms, "avg_confidence")) {
        Ok(x) => x,
        Err(e) => return Err(failed(OcrField::AvgConfidence, e)),
    };
    let below_90 = match decode_real(find_member(ms, "below_90")) {
        Ok(x) => x,
        Err(e) => return Err(failed(OcrField::Below90, e)),
    };
    let below_60 = match decode_real(find_member(ms, "below_60")) {
        Ok(x) => x,
        Err(e) => return Err(failed(OcrField::Below60, e)),
    };
    let below_30 = match decode_real(find_member(ms, "below_30")) {
        Ok(x) => x,
        Err(e) => return Err(failed(OcrField::Below30, e)),
    };
    // Both are decoded so that a malformed one rejects the file; enrichment
    // replaces them.
    let pid = match decode_opt_text(find_member(ms, "pid")) {
        Ok(x) => x,
        Err(e) => return Err(failed(OcrField::Pid, e)),
    };
    let pid_url = match decode_opt_text(find_member(ms, "pid_url")) {
        Ok(x) => x,
        Err(e) => return Err(failed(OcrField::PidUrl, e)),
    };
    Ok(
        Record {
            orientation,
            orientation_conf,
            script,
            script_conf,
            image_name,
            word_count,
            avg_confidence,
            below_90,
            below_60,
            below_30,
            pid,
            pid_url,
        },
    )
}

/// The OCR record that the text of a tracker file gives.
pub open spec fn ocr_text_record_of(text: Seq<char>) -> Result<RecordView, DecodeError> {
    match json_object_of(text) {
        None => Err(DecodeError::NotAnObject),
        Some(ms) => ocr_record_of(ms),
    }
}

/// Parses the text of an OCR tracker file into a record, with neither
/// identifier nor URL.
pub fn parse_ocr_record(text: &str) -> (r: Result<Record, DecodeError>)
    ensures
        match r {
            Ok(rec) => ocr_text_record_of(text@) == Ok::<RecordView, DecodeError>(rec@),
            Err(e) => ocr_text_record_of(text@) == Err::<RecordView, DecodeError>(e),
        },
{
    match parse_json_object(text) {
        Some(ms) => decode_ocr_record(&ms),
        None => Err(DecodeError::NotAnObject),
    }
}

/// The members that an OCR tracker file must have.
pub open spec fn is_required_member(name: Seq<char>) -> bool {
    name == "orientation"@ || name == "orientation_conf"@ || name == "script"@ || name
        == "script_conf"@ || name == "image_name"@ || name == "word_count"@ || name
        == "avg_confidence"@ || name == "below_90"@ || name == "below_60"@ || name == "below_30"@
}

/// Members that lack a required one give no record.
pub proof fn lemma_missing_member_rejected(ms: Seq<JsonMember>, name: Seq<char>)
    requires
        is_required_member(name),
        member(ms, name) is None,
    ensures
        ocr_record_of(ms) is Err,
{
}

} // verus!
