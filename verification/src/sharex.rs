//! The upload configuration of an XBackbone instance, the request an
//! upload makes, and the answer the server gives.

use vstd::prelude::*;

verus! {

/// Upload settings as XBackbone exports them for ShareX clients.
#[derive(Debug)]
pub struct XBackboneShareXData {
    pub request_url: String,
    pub file_form_name: String,
    pub arguments: Arguments,
}

/// Extra form fields sent along with the file.
#[derive(Debug)]
pub struct Arguments {
    pub token: String,
}

/// What the server answers after an upload.
#[derive(Debug)]
pub struct ReturnedData {
    pub url: String,
}

/// A multipart upload: where to post, the text fields, and the name of the
/// field that carries the file.
#[derive(Debug)]
pub struct UploadRequest {
    pub url: String,
    pub text_fields: Vec<(String, String)>,
    pub file_field: String,
}

impl Clone for Arguments {
    fn clone(&self) -> (r: Self)
        ensures
            r == *self,
    {
        Arguments { token: self.token.clone() }
    }
}

impl Clone for XBackboneShareXData {
    fn clone(&self) -> (r: Self)
        ensures
            r == *self,
    {
        XBackboneShareXData {
            request_url: self.request_url.clone(),
            file_form_name: self.file_form_name.clone(),
            arguments: self.arguments.clone(),
        }
    }
}

impl Clone for ReturnedData {
    fn clone(&self) -> (r: Self)
        ensures
            r == *self,
    {
        ReturnedData { url: self.url.clone() }
    }
}

impl Default for Arguments {
    fn default() -> (r: Self)
        ensures
            r.token@ == Seq::<char>::empty(),
    {
        Arguments { token: String::new() }
    }
}

impl Default for XBackboneShareXData {
    fn default() -> (r: Self)
        ensures
            r.request_url@ == Seq::<char>::empty(),
            r.file_form_name@ == Seq::<char>::empty(),
            r.arguments.token@ == Seq::<char>::empty(),
    {
        XBackboneShareXData {
            request_url: String::new(),
            file_form_name: String::new(),
            arguments: Arguments { token: String::new() },
        }
    }
}

impl Default for ReturnedData {
    fn default() -> (r: Self)
        ensures
            r.url@ == Seq::<char>::empty(),
    {
        ReturnedData { url: String::new() }
    }
}

impl PartialEq for Arguments {
    fn eq(&self, other: &Self) -> (r: bool) {
        self.token == other.token
    }
}

impl vstd::std_specs::cmp::PartialEqSpecImpl for Arguments {
    open spec fn obeys_eq_spec() -> bool {
        true
    }

    open spec fn eq_spec(&self, other: &Self) -> bool {
        self.token@ == other.token@
    }
}

impl PartialEq for XBackboneShareXData {
    fn eq(&self, other: &Self) -> (r: bool) {
        self.request_url == other.request_url && self.file_form_name == other.file_form_name
            && self.arguments.token == other.arguments.token
    }
}

impl vstd::std_specs::cmp::PartialEqSpecImpl for XBackboneShareXData {
    open spec fn obeys_eq_spec() -> bool {
        true
    }

    open spec fn eq_spec(&self, other: &Self) -> bool {
        self.request_url@ == other.request_url@ && self.file_form_name@ == other.file_form_name@
            && self.arguments.token@ == other.arguments.token@
    }
}

impl PartialEq for ReturnedData {
    fn eq(&self, other: &Self) -> (r: bool) {
        self.url == other.url
    }
}

impl vstd::std_specs::cmp::PartialEqSpecImpl for ReturnedData {
    open spec fn obeys_eq_spec() -> bool {
        true
    }

    open spec fn eq_spec(&self, other: &Self) -> bool {
        self.url@ == other.url@
    }
}

impl XBackboneShareXData {
    /// The request that uploads a file under this configuration: posted to
    /// the configured address, with the token as a text field and the file
    /// in the field `file`.
    pub fn upload_request(&self) -> (r: UploadRequest)
        ensures
            r.url@ == self.request_url@,
            r.text_fields@.len() == 1,
            r.text_fields@[0].0@ == "token"@,
            r.text_fields@[0].1@ == self.arguments.token@,
            r.file_field@ == "file"@,
    {
        let mut text_fields: Vec<(String, String)> = Vec::new();
        text_fields.push(("token".to_owned(), self.arguments.token.clone()));
        UploadRequest {
            url: self.request_url.clone(),
            text_fields,
            file_field: "file".to_owned(),
        }
    }
}

} // verus!
