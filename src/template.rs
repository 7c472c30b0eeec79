use vstd::prelude::*;

verus! {

/// HTTP method of an upload request.
#[derive(Clone, Copy, Debug, PartialEq, Eq, Structural)]
pub enum Method {
    Get,
    Post,
    Put,
    Patch,
    Delete,
}

/// Body encoding declared by a template. Only `NoBody` and `Multipart` can be
/// built; the others are reported as unsupported.
#[derive(Clone, Copy, Debug, PartialEq, Eq, Structural)]
pub enum DataType {
    NoBody,
    Plain,
    Multipart,
    FormUrlEncoded,
    Json,
    Xml,
}

/// A declarative description of an upload service.
///
/// The mappings (`form`, `headers`, `additional_urls`) are kept as lists of
/// `(name, value)` pairs in template order; `wf` says their names are unique.
#[derive(Clone, Debug)]
pub struct UploaderTemplate {
    pub method: Method,
    pub request_url: String,
    pub data: DataType,
    pub form: Vec<(String, String)>,
    pub file_form: Option<String>,
    pub headers: Vec<(String, String)>,
    pub regex: Option<String>,
    pub url: String,
    pub additional_urls: Vec<(String, String)>,
    pub tags: Vec<String>,
}

/// No two pairs of `s` share a name.
pub open spec fn names_unique(s: Seq<(String, String)>) -> bool {
    forall|i: int, j: int|
        0 <= i < j < s.len() ==> #[trigger] s[i].0@ != #[trigger] s[j].0@
}

impl UploaderTemplate {
    /// Every mapping of the template has unique names.
    pub open spec fn wf(&self) -> bool {
        &&& names_unique(self.form@)
        &&& names_unique(self.headers@)
        &&& names_unique(self.additional_urls@)
    }

    /// Whether the template's body encoding has defined behaviour.
    pub open spec fn data_supported(&self) -> bool {
        self.data == DataType::NoBody || self.data == DataType::Multipart
    }
}

} // verus!
