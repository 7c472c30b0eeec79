use vstd::prelude::*;

use crate::error::UploadError;
use crate::template::{DataType, Method, UploaderTemplate};

verus! {

/// A character allowed in a header name: a letter, a digit, or one of
/// ``!"#$%&'*+-.^_`|~``.
pub open spec fn header_name_char(c: char) -> bool {
    let u = c as u32;
    ||| 97 <= u <= 122
    ||| 65 <= u <= 90
    ||| 48 <= u <= 57
    ||| c == '!' || c == '"' || c == '#' || c == '$' || c == '%' || c == '&' || c == '\''
    ||| c == '*' || c == '+' || c == '-' || c == '.' || c == '^' || c == '_' || c == '`'
    ||| c == '|' || c == '~'
}

/// A header name is valid when it has 1 to 65535 characters, each allowed in
/// a header name (all of them ASCII, so characters and bytes agree).
pub open spec fn header_name_valid(name: Seq<char>) -> bool {
    &&& 1 <= name.len() <= 65535
    &&& forall|i: int| 0 <= i < name.len() ==> #[trigger] header_name_char(name[i])
}

/// A header value is valid when each character is a tab or at least a space,
/// other than DEL. Characters outside ASCII encode to bytes of 128 and above,
/// which are accepted as opaque octets.
pub open spec fn header_value_valid(value: Seq<char>) -> bool {
    forall|i: int|
        0 <= i < value.len() ==> (#[trigger] value[i] == '\t' || (value[i] as u32 >= 32
            && value[i] as u32 != 127))
}

/// Both the name and the value of a header are valid.
pub open spec fn header_valid(h: (String, String)) -> bool {
    header_name_valid(h.0@) && header_value_valid(h.1@)
}

/// The headers before index `k` are all valid.
pub open spec fn headers_valid_upto(hs: Seq<(String, String)>, k: int) -> bool {
    forall|j: int| 0 <= j < k ==> #[trigger] header_valid(hs[j])
}

/// Relies on `reqwest::header::HeaderName::from_bytes` (http's): it accepts
/// 1 to 65535 bytes that its table of header characters maps to non-zero.
#[verifier::external_body]
fn parse_header_name(name: &str) -> (r: Result<
    reqwest::header::HeaderName,
    reqwest::header::InvalidHeaderName,
>)
    ensures
        r is Ok <==> header_name_valid(name@),
{
    reqwest::header::HeaderName::from_bytes(name.as_bytes())
}

/// Relies on `reqwest::header::HeaderValue::from_str` (http's): it accepts a
/// string whose bytes are all tabs or at least 32 and other than 127.
#[verifier::external_body]
fn parse_header_value(value: &str) -> (r: Result<
    reqwest::header::HeaderValue,
    reqwest::header::InvalidHeaderValue,
>)
    ensures
        r is Ok <==> header_value_valid(value@),
{
    reqwest::header::HeaderValue::from_str(value)
}

/// Declared so that a validated header name can be held in verified code.
#[verifier::external_type_specification]
#[verifier::external_body]
pub struct ExHeaderName(reqwest::header::HeaderName);

/// Declared so that a validated header value can be held in verified code.
#[verifier::external_type_specification]
#[verifier::external_body]
pub struct ExHeaderValue(reqwest::header::HeaderValue);

/// What a multipart part carries.
#[derive(Debug)]
pub enum PartContent {
    /// The payload, with the file name attribute when one was given.
    File { bytes: Vec<u8>, file_name: Option<String> },
    /// A literal text value.
    Text(String),
}

/// One named part of a multipart body.
#[derive(Debug)]
pub struct FormPart {
    pub name: String,
    pub content: PartContent,
}

/// The body of an upload request.
#[derive(Debug)]
pub enum RequestBody {
    Empty,
    Multipart(Vec<FormPart>),
}

/// A transport-agnostic description of an upload request.
#[derive(Debug)]
pub struct UploadRequest {
    pub method: Method,
    pub url: String,
    pub headers: Vec<(String, String)>,
    pub body: RequestBody,
}

/// `p` is the text part `(name, value)` of `f`.
pub open spec fn is_text_part(p: FormPart, f: (String, String)) -> bool {
    p.name == f.0 && p.content == PartContent::Text(f.1)
}

/// `parts`, from index `off` on, are the text parts of `form` in order.
pub open spec fn text_parts(parts: Seq<FormPart>, off: int, form: Seq<(String, String)>) -> bool {
    &&& parts.len() == off + form.len()
    &&& forall|i: int| 0 <= i < form.len() ==> #[trigger] is_text_part(parts[off + i], form[i])
}

/// The multipart parts built from a template: the file part first when the
/// template names a file field, then one text part per form entry.
pub open spec fn multipart_parts(
    t: UploaderTemplate,
    data: Vec<u8>,
    file_name: Option<String>,
    parts: Seq<FormPart>,
) -> bool {
    match t.file_form {
        Some(field) => {
            &&& parts.len() >= 1
            &&& parts[0].name == field
            &&& parts[0].content == (PartContent::File { bytes: data, file_name })
            &&& text_parts(parts, 1, t.form@)
            &&& forall|i: int| 1 <= i < parts.len() ==> !(#[trigger] parts[i].content is File)
        },
        None => {
            &&& text_parts(parts, 0, t.form@)
            &&& forall|i: int| 0 <= i < parts.len() ==> !(#[trigger] parts[i].content is File)
        },
    }
}

/// The request built from a template with valid headers and a supported body
/// encoding.
pub open spec fn request_built(
    t: UploaderTemplate,
    data: Vec<u8>,
    file_name: Option<String>,
    req: UploadRequest,
) -> bool {
    &&& req.method == t.method
    &&& req.url == t.request_url
    &&& req.headers@ == t.headers@
    &&& match t.data {
        DataType::NoBody => req.body == RequestBody::Empty,
        DataType::Multipart => req.body matches RequestBody::Multipart(parts) && multipart_parts(
            t,
            data,
            file_name,
            parts@,
        ),
        _ => false,
    }
}

/// Header `k` is the first invalid one of `hs`.
pub open spec fn first_invalid_header(hs: Seq<(String, String)>, k: int) -> bool {
    0 <= k < hs.len() && headers_valid_upto(hs, k) && !header_valid(hs[k])
}

/// At most one header is the first invalid one.
proof fn lemma_first_invalid_unique(hs: Seq<(String, String)>, k1: int, k2: int)
    requires
        first_invalid_header(hs, k1),
        first_invalid_header(hs, k2),
    ensures
        k1 == k2,
{
    if k1 < k2 {
        assert(header_valid(hs[k1]));
    } else if k2 < k1 {
        assert(header_valid(hs[k2]));
    }
}

/// Checks each header in order, name before value; the first rejection is
/// the error.
fn check_headers(headers: &Vec<(String, String)>) -> (r: Result<(), UploadError>)
    ensures
        r is Ok <==> headers_valid_upto(headers@, headers@.len() as int),
        r matches Err(UploadError::InvalidHeaderName(_)) <==> exists|k: int|
            #[trigger] first_invalid_header(headers@, k) && !header_name_valid(headers@[k].0@),
        r matches Err(UploadError::InvalidHeaderValue(_)) <==> exists|k: int|
            #[trigger] first_invalid_header(headers@, k) && header_name_valid(headers@[k].0@),
        r is Ok || r matches Err(UploadError::InvalidHeaderName(_)) || r matches Err(
            UploadError::InvalidHeaderValue(_),
        ),
{
    let mut i: usize = 0;
    while i < headers.len()
        invariant
            0 <= i <= headers@.len(),
            headers_valid_upto(headers@, i as int),
        decreases headers.len() - i,
    {
        let name = &headers[i].0;
        let value = &headers[i].1;
        match parse_header_name(name.as_str()) {
            Ok(_) => {},
            Err(e) => {
                assert(first_invalid_header(headers@, i as int));
                assert forall|k: int| #[trigger] first_invalid_header(headers@, k) implies k
                    == i by {
                    lemma_first_invalid_unique(headers@, k, i as int);
                }
                assert(!headers_valid_upto(headers@, headers@.len() as int)) by {
                    assert(!header_valid(headers@[i as int]));
                }
                return Err(UploadError::InvalidHeaderName(e));
            },
        }
        match parse_header_value(value.as_str()) {
            Ok(_) => {},
            Err(e) => {
                assert(first_invalid_header(headers@, i as int));
                assert forall|k: int| #[trigger] first_invalid_header(headers@, k) implies k
                    == i by {
                    lemma_first_invalid_unique(headers@, k, i as int);
                }
                assert(!headers_valid_upto(headers@, headers@.len() as int)) by {
                    assert(!header_valid(headers@[i as int]));
                }
                return Err(UploadError::InvalidHeaderValue(e));
            },
        }
        i += 1;
    }
    assert forall|k: int| !#[trigger] first_invalid_header(headers@, k) by {
        if 0 <= k < headers@.len() {
            assert(header_valid(headers@[k]));
        }
    }
    Ok(())
}

/// Copies the template's headers, which the caller has checked.
fn copy_pairs(pairs: &Vec<(String, String)>) -> (r: Vec<(String, String)>)
    ensures
        r@ == pairs@,
{
    let mut r: Vec<(String, String)> = Vec::new();
    let mut i: usize = 0;
    while i < pairs.len()
        invariant
            0 <= i <= pairs@.len(),
            r@ == pairs@.take(i as int),
        decreases pairs.len() - i,
    {
        r.push((pairs[i].0.clone(), pairs[i].1.clone()));
        assert(pairs@.take(i + 1) =~= pairs@.take(i as int).push(pairs@[i as int]));
        i += 1;
    }
    assert(pairs@.take(pairs@.len() as int) =~= pairs@);
    r
}

/// Builds the multipart parts: the payload under the file field, if the
/// template names one, then the form's text values in template order.
fn build_parts(t: &UploaderTemplate, data: Vec<u8>, file_name: Option<String>) -> (r: Vec<
    FormPart,
>)
    ensures
        multipart_parts(*t, data, file_name, r@),
{
    let mut parts: Vec<FormPart> = Vec::new();
    let off: usize = match &t.file_form {
        Some(field) => {
            parts.push(FormPart { name: field.clone(), content: PartContent::File { bytes: data, file_name } });
            1
        },
        None => 0,
    };
    let mut i: usize = 0;
    while i < t.form.len()
        invariant
            0 <= i <= t.form@.len(),
            parts@.len() == off + i,
            off == (if t.file_form is Some { 1int } else { 0int }),
            t.file_form matches Some(field) ==> parts@[0].name == field && parts@[0].content
                == (PartContent::File { bytes: data, file_name }),
            forall|k: int| 0 <= k < i ==> #[trigger] is_text_part(parts@[off + k], t.form@[k]),
        decreases t.form.len() - i,
    {
        let name = t.form[i].0.clone();
        let value = t.form[i].1.clone();
        parts.push(FormPart { name, content: PartContent::Text(value) });
        assert(is_text_part(parts@[off + i], t.form@[i as int]));
        i += 1;
    }
    assert forall|k: int| off <= k < parts@.len() implies !(#[trigger] parts@[k].content is File) by {
        assert(is_text_part(parts@[off + (k - off)], t.form@[k - off]));
    }
    parts
}

/// Builds the request that a template describes for a payload: its method,
/// endpoint and headers, and a body by the template's encoding. The headers
/// are checked first, in order; then the encoding must be `NoBody` or
/// `Multipart`.
pub fn build_request(template: &UploaderTemplate, data: Vec<u8>, file_name: Option<String>) -> (r:
    Result<UploadRequest, UploadError>)
    ensures
        r is Ok <==> headers_valid_upto(template.headers@, template.headers@.len() as int)
            && template.data_supported(),
        r matches Ok(req) ==> request_built(*template, data, file_name, req),
        r matches Err(UploadError::InvalidHeaderName(_)) <==> exists|k: int|
            #[trigger] first_invalid_header(template.headers@, k) && !header_name_valid(
                template.headers@[k].0@,
            ),
        r matches Err(UploadError::InvalidHeaderValue(_)) <==> exists|k: int|
            #[trigger] first_invalid_header(template.headers@, k) && header_name_valid(
                template.headers@[k].0@,
            ),
        r matches Err(UploadError::UnsupportedData(_)) <==> headers_valid_upto(
            template.headers@,
            template.headers@.len() as int,
        ) && !template.data_supported(),
        r matches Err(UploadError::UnsupportedData(d)) ==> d == template.data,
        r is Ok || r matches Err(UploadError::InvalidHeaderName(_)) || r matches Err(
            UploadError::InvalidHeaderValue(_),
        ) || r matches Err(UploadError::UnsupportedData(_)),
{
    match check_headers(&template.headers) {
        Ok(()) => {},
        Err(e) => {
            return Err(e);
        },
    }
    let body = match template.data {
        DataType::NoBody => RequestBody::Empty,
        DataType::Multipart => RequestBody::Multipart(build_parts(template, data, file_name)),
        other => {
            return Err(UploadError::UnsupportedData(other));
        },
    };
    Ok(
        UploadRequest {
            method: template.method,
            url: template.request_url.clone(),
            headers: copy_pairs(&template.headers),
            body,
        },
    )
}

} // verus!
