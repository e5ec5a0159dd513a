use vstd::prelude::*;

use crate::datetime::{
    format_datetime, parse_datetime, spec_format_datetime, spec_parse_datetime, DateTime,
};
use crate::digits::{format_usize, parse_usize_str, spec_format_nat, spec_parse_usize};
use crate::jsontext::{
    json_array_items, json_member_text, json_member_text_of, json_parse, json_parse_doc,
    json_string_array, json_stringify_strings, json_take_array,
};
use crate::urls::{url_as_string, url_join, url_join_norm, url_parse, url_parse_norm, url_str};

verus! {

/// Everything that can go wrong while discovering the device or talking to
/// its HTTP API.
#[derive(Clone, Copy, Debug, PartialEq, Eq, Structural)]
pub enum DoxieError {
    /// Discovery found no device.
    DeviceNotFound,
    /// A discovery response advertised a location that is not a URL.
    MalformedDeviceResponse,
    /// The base URL handed to the client does not parse, or a request path
    /// cannot be resolved against it.
    InvalidBaseUrl,
    /// The connection itself failed (refused, timed out, TLS).
    TransportError,
    /// The listing document's top level is not a JSON array.
    UnexpectedShape,
    /// A `size` or `modified` value of a listing entry does not parse.
    MalformedField,
    /// A download was redirected, which the device uses in place of a
    /// missing-file status.
    NotFound,
    /// A download completed with a zero-length body.
    EmptyDownload,
    /// The device answered with a non-success status.
    RequestFailed(u16),
}

/// Whether an HTTP status code counts as success (the 2xx class).
pub open spec fn spec_is_success_status(status: u16) -> bool {
    200 <= status <= 299
}

/// Executable test for the 2xx success class of HTTP status codes.
pub fn is_success_status(status: u16) -> (r: bool)
    ensures
        r == spec_is_success_status(status),
{
    200 <= status && status <= 299
}

/// One file known to the device: its server-assigned path-like name, its
/// size in bytes, and its modification timestamp in device-local time.
#[derive(Clone, Debug)]
pub struct ScanEntry {
    pub name: String,
    pub size: usize,
    pub modified: DateTime,
}

/// The mathematical content of a `ScanEntry`.
pub struct ScanModel {
    pub name: Seq<char>,
    pub size: usize,
    pub modified: DateTime,
}

impl View for ScanEntry {
    type V = ScanModel;

    open spec fn view(&self) -> ScanModel {
        ScanModel { name: self.name@, size: self.size, modified: self.modified }
    }
}

/// The text `render` produces for an entry: the name verbatim, the size in
/// decimal, and the timestamp as `YYYY-MM-DD HH:MM:SS`.
pub open spec fn spec_render_scan_entry(e: ScanModel) -> Seq<char> {
    "ScanEntry {\n    name: \""@ + e.name + "\",\n    size: "@ + spec_format_nat(e.size as nat)
        + "\n    modified: \""@ + spec_format_datetime(e.modified) + "\"\n}"@
}

impl ScanEntry {
    /// Renders the entry for display, reproducing `name`, `size` and
    /// `modified` exactly as `spec_render_scan_entry` states.
    pub fn render(&self) -> (r: String)
        ensures
            r@ == spec_render_scan_entry(self@),
    {
        let mut r = "ScanEntry {\n    name: \"".to_owned();
        r.append(self.name.as_str());
        r.append("\",\n    size: ");
        let size_text = format_usize(self.size);
        r.append(size_text.as_str());
        r.append("\n    modified: \"");
        let modified_text = format_datetime(&self.modified);
        r.append(modified_text.as_str());
        r.append("\"\n}");
        proof {
            assert(r@ =~= spec_render_scan_entry(self@));
        }
        r
    }
}

/// What an HTTP round trip came back with, as far as the client's rules
/// read it: the response's final URL after any redirect, and its status.
#[derive(Clone, Debug)]
pub struct HttpReply {
    pub resolved_url: String,
    pub status: u16,
}

/// A planned GET for one scan: the request URL and the local destination
/// path the body should be written to.
#[derive(Clone, Debug)]
pub struct DownloadRequest {
    pub url: String,
    pub dest: String,
}

/// A planned POST: the request URL and the raw body to send.
#[derive(Clone, Debug)]
pub struct PostRequest {
    pub url: String,
    pub body: String,
}

/// The final path segment of a path-like name: the suffix after the last
/// `/`, empty when the name is empty or ends in `/`.
pub open spec fn spec_file_name(s: Seq<char>) -> Seq<char>
    decreases s.len(),
{
    if s.len() == 0 {
        Seq::empty()
    } else if s.last() == '/' {
        Seq::empty()
    } else {
        spec_file_name(s.drop_last()).push(s.last())
    }
}

/// When everything from position `i` on is free of `/` and position `i`
/// starts right after a `/` (or at the start), the file name is exactly
/// that suffix.
proof fn lemma_file_name_tail(s: Seq<char>, i: int)
    requires
        0 <= i <= s.len(),
        i > 0 ==> s[i - 1] == '/',
        forall|j: int| i <= j < s.len() ==> s[j] != '/',
    ensures
        spec_file_name(s) == s.subrange(i, s.len() as int),
    decreases s.len(),
{
    if i == s.len() {
        assert(s.subrange(i, s.len() as int) =~= Seq::<char>::empty());
    } else {
        assert(s.last() != '/');
        lemma_file_name_tail(s.drop_last(), i);
        assert(s.drop_last().subrange(i, s.len() - 1) =~= s.subrange(i, s.len() - 1));
        assert(s.subrange(i, s.len() - 1).push(s.last()) =~= s.subrange(i, s.len() as int));
    }
}

/// The final path segment of a name, as `spec_file_name` states it.
pub fn file_name_of(name: &str) -> (r: String)
    ensures
        r@ == spec_file_name(name@),
{
    let n = name.unicode_len();
    let mut i: usize = n;
    while i > 0
        invariant
            0 <= i <= n,
            n == name@.len(),
            forall|j: int| i <= j < n ==> name@[j] != '/',
        decreases i,
    {
        if name.get_char(i - 1) == '/' {
            proof {
                lemma_file_name_tail(name@, i as int);
            }
            return name.substring_char(i, n).to_owned();
        }
        i = i - 1;
    }
    proof {
        lemma_file_name_tail(name@, 0);
    }
    name.substring_char(0, n).to_owned()
}

/// The request path for one scan: `scans` concatenated directly with the
/// name, which supplies its own leading slash.
pub open spec fn spec_scan_path(name: Seq<char>) -> Seq<char> {
    "scans"@ + name
}

/// The request URL for one scan, resolved against a base URL.
pub open spec fn spec_scan_target(base: Seq<char>, name: Seq<char>) -> Option<Seq<char>> {
    url_join_norm(base, spec_scan_path(name))
}

/// The rule a download response is judged by: a redirect means the file
/// does not exist, whatever the status says; otherwise the status decides.
pub open spec fn spec_download_verdict(requested: Seq<char>, resolved: Seq<char>, status: u16) -> Result<(), DoxieError> {
    if resolved != requested {
        Err(DoxieError::NotFound)
    } else if spec_is_success_status(status) {
        Ok(())
    } else {
        Err(DoxieError::RequestFailed(status))
    }
}

/// The rule a plain status is judged by: success or `RequestFailed`.
pub open spec fn spec_status_verdict(status: u16) -> Result<(), DoxieError> {
    if spec_is_success_status(status) {
        Ok(())
    } else {
        Err(DoxieError::RequestFailed(status))
    }
}

/// What one listing element yields: its `name` member text, its `size`
/// member parsed as a decimal byte count, and its `modified` member parsed
/// as a `YYYY-MM-DD HH:MM:SS` timestamp.
pub open spec fn spec_row(v: json::JsonValue) -> Option<ScanModel> {
    let size = spec_parse_usize(json_member_text_of(v, "size"@));
    let modified = spec_parse_datetime(json_member_text_of(v, "modified"@));
    if size is Some && modified is Some {
        Some(
            ScanModel {
                name: json_member_text_of(v, "name"@),
                size: size->0,
                modified: modified->0,
            },
        )
    } else {
        None
    }
}

/// What a listing array yields: one entry per element in order, or
/// `MalformedField` when any element's `size` or `modified` does not parse.
pub open spec fn spec_rows(items: Seq<json::JsonValue>) -> Result<Seq<ScanModel>, DoxieError> {
    if forall|i: int| 0 <= i < items.len() ==> spec_row(items[i]) is Some {
        Ok(Seq::new(items.len(), |i: int| spec_row(items[i])->0))
    } else {
        Err(DoxieError::MalformedField)
    }
}

/// What a listing body yields: `UnexpectedShape` when the text is not a
/// JSON document whose top level is an array, else what the array yields.
pub open spec fn spec_listing(text: Seq<char>) -> Result<Seq<ScanModel>, DoxieError> {
    match json_parse_doc(text) {
        None => Err(DoxieError::UnexpectedShape),
        Some(doc) => match json_array_items(doc) {
            None => Err(DoxieError::UnexpectedShape),
            Some(items) => spec_rows(items),
        },
    }
}

/// The typed client for the device's HTTP API: it owns the discovered base
/// URL and turns each operation into request URLs and response judgements.
#[derive(Debug)]
pub struct Doxie {
    pub base_url: url::Url,
}

impl Doxie {
    /// The base URL's canonical serialization.
    pub open spec fn base_str(&self) -> Seq<char> {
        url_str(self.base_url)
    }

    /// Builds a client from a base URL string; `InvalidBaseUrl` exactly
    /// when the string does not parse as an absolute URL.
    pub fn from_base_url_string(url_string: &str) -> (r: Result<Doxie, DoxieError>)
        ensures
            (r is Ok) == (url_parse_norm(url_string@) is Some),
            r is Ok ==> r->Ok_0.base_str() == url_parse_norm(url_string@)->Some_0,
            r is Err ==> r->Err_0 == DoxieError::InvalidBaseUrl,
    {
        match url_parse(url_string) {
            Ok(u) => Ok(Doxie { base_url: u }),
            Err(_) => Err(DoxieError::InvalidBaseUrl),
        }
    }

    /// The URL the scan listing is fetched from: `{base}/scans.json`.
    pub fn list_scans_url(&self) -> (r: Result<String, DoxieError>)
        ensures
            (r is Ok) == (url_join_norm(self.base_str(), "/scans.json"@) is Some),
            r is Ok ==> r->Ok_0@ == url_join_norm(self.base_str(), "/scans.json"@)->Some_0,
            r is Err ==> r->Err_0 == DoxieError::InvalidBaseUrl,
    {
        match url_join(&self.base_url, "/scans.json") {
            Ok(u) => Ok(url_as_string(&u)),
            Err(_) => Err(DoxieError::InvalidBaseUrl),
        }
    }

    /// The URL one scan is addressed at: the base joined with `scans{name}`.
    fn scan_item_url(&self, name: &str) -> (r: Result<String, DoxieError>)
        ensures
            (r is Ok) == (spec_scan_target(self.base_str(), name@) is Some),
            r is Ok ==> r->Ok_0@ == spec_scan_target(self.base_str(), name@)->Some_0,
            r is Err ==> r->Err_0 == DoxieError::InvalidBaseUrl,
    {
        let mut path = "scans".to_owned();
        path.append(name);
        assert(path@ == spec_scan_path(name@));
        match url_join(&self.base_url, path.as_str()) {
            Ok(u) => Ok(url_as_string(&u)),
            Err(_) => Err(DoxieError::InvalidBaseUrl),
        }
    }

    /// Interprets a scan listing body, yielding one entry per array element
    /// in array order, as `spec_listing` states.
    pub fn list_scans(&self, body: &str) -> (r: Result<Vec<ScanEntry>, DoxieError>)
        ensures
            (r is Ok) == (spec_listing(body@) is Ok),
            r is Ok ==> r->Ok_0@.len() == spec_listing(body@)->Ok_0.len(),
            r is Ok ==> forall|i: int|
                0 <= i < r->Ok_0@.len() ==> r->Ok_0@[i]@ == spec_listing(body@)->Ok_0[i],
            r is Err ==> r->Err_0 == spec_listing(body@)->Err_0,
    {
        let doc = match json_parse(body) {
            Ok(d) => d,
            Err(_) => {
                return Err(DoxieError::UnexpectedShape);
            },
        };
        let items = match json_take_array(doc) {
            Ok(v) => v,
            Err(_) => {
                return Err(DoxieError::UnexpectedShape);
            },
        };
        let ghost gitems = items@;
        let mut out: Vec<ScanEntry> = Vec::new();
        let mut idx: usize = 0;
        while idx < items.len()
            invariant
                0 <= idx <= items@.len(),
                items@ == gitems,
                spec_listing(body@) == spec_rows(gitems),
                forall|i: int| 0 <= i < idx ==> spec_row(gitems[i]) is Some,
                out@.len() == idx,
                forall|i: int| 0 <= i < idx ==> out@[i]@ == spec_row(gitems[i])->0,
            decreases items@.len() - idx,
        {
            let el = &items[idx];
            let name_text = json_member_text(el, "name");
            let size_text = json_member_text(el, "size");
            let modified_text = json_member_text(el, "modified");
            let size = match parse_usize_str(size_text.as_str()) {
                Some(v) => v,
                None => {
                    assert(spec_row(gitems[idx as int]) is None);
                    return Err(DoxieError::MalformedField);
                },
            };
            let modified = match parse_datetime(modified_text.as_str()) {
                Some(d) => d,
                None => {
                    assert(spec_row(gitems[idx as int]) is None);
                    return Err(DoxieError::MalformedField);
                },
            };
            out.push(ScanEntry { name: name_text, size, modified });
            idx = idx + 1;
        }
        proof {
            assert(spec_rows(gitems) is Ok);
        }
        Ok(out)
    }

    /// Plans the download of one scan: the request URL for `scans{name}`
    /// and the destination, defaulted to the name's final path segment.
    pub fn download_scan_by_name(&self, name: &str, dest: Option<&str>) -> (r: Result<
        DownloadRequest,
        DoxieError,
    >)
        requires
            dest is Some || spec_file_name(name@).len() > 0,
        ensures
            (r is Ok) == (spec_scan_target(self.base_str(), name@) is Some),
            r is Ok ==> r->Ok_0.url@ == spec_scan_target(self.base_str(), name@)->Some_0,
            r is Ok ==> r->Ok_0.dest@ == (if dest is Some {
                dest->0@
            } else {
                spec_file_name(name@)
            }),
            r is Err ==> r->Err_0 == DoxieError::InvalidBaseUrl,
    {
        let dest_path: String = match dest {
            Some(d) => d.to_owned(),
            None => file_name_of(name),
        };
        match self.scan_item_url(name) {
            Ok(u) => Ok(DownloadRequest { url: u, dest: dest_path }),
            Err(e) => Err(e),
        }
    }

    /// The URL one scan is deleted at: the base joined with `scans{name}`.
    pub fn delete_scan_by_name(&self, name: &str) -> (r: Result<String, DoxieError>)
        ensures
            (r is Ok) == (spec_scan_target(self.base_str(), name@) is Some),
            r is Ok ==> r->Ok_0@ == spec_scan_target(self.base_str(), name@)->Some_0,
            r is Err ==> r->Err_0 == DoxieError::InvalidBaseUrl,
    {
        self.scan_item_url(name)
    }

    /// Plans the batch deletion: a POST to `{base}/scans/delete.json` whose
    /// raw body is the JSON array of the names.
    pub fn delete_scans_by_names(&self, names: &Vec<String>) -> (r: Result<PostRequest, DoxieError>)
        ensures
            (r is Ok) == (url_join_norm(self.base_str(), "scans/delete.json"@) is Some),
            r is Ok ==> r->Ok_0.url@ == url_join_norm(self.base_str(), "scans/delete.json"@)->Some_0,
            r is Ok ==> r->Ok_0.body@ == json_string_array(names.deep_view()),
            r is Err ==> r->Err_0 == DoxieError::InvalidBaseUrl,
    {
        let url = match url_join(&self.base_url, "scans/delete.json") {
            Ok(u) => url_as_string(&u),
            Err(_) => {
                return Err(DoxieError::InvalidBaseUrl);
            },
        };
        let body = json_stringify_strings(names);
        Ok(PostRequest { url, body })
    }
}

/// Judges a download response: a redirect (the resolved URL differs from
/// the requested one) is `NotFound` whatever the status; otherwise a
/// non-success status is `RequestFailed`.
pub fn download_response_verdict(requested_url: &str, reply: &HttpReply) -> (r: Result<
    (),
    DoxieError,
>)
    ensures
        r == spec_download_verdict(requested_url@, reply.resolved_url@, reply.status),
{
    let requested: String = requested_url.to_owned();
    if !(reply.resolved_url == requested) {
        Err(DoxieError::NotFound)
    } else if is_success_status(reply.status) {
        Ok(())
    } else {
        Err(DoxieError::RequestFailed(reply.status))
    }
}

/// Judges what a finished download wrote: a zero-length body is
/// `EmptyDownload`; otherwise the destination actually written comes back.
pub fn download_written(dest: String, bytes_written: u64) -> (r: Result<String, DoxieError>)
    ensures
        bytes_written == 0 ==> r is Err && r->Err_0 == DoxieError::EmptyDownload,
        bytes_written > 0 ==> r is Ok && r->Ok_0@ == dest@,
{
    if bytes_written == 0 {
        Err(DoxieError::EmptyDownload)
    } else {
        Ok(dest)
    }
}

/// Judges a delete or batch-delete response by its status alone.
pub fn delete_response_verdict(status: u16) -> (r: Result<(), DoxieError>)
    ensures
        r == spec_status_verdict(status),
{
    if is_success_status(status) {
        Ok(())
    } else {
        Err(DoxieError::RequestFailed(status))
    }
}

/// A redirected download is judged `NotFound` for every status code: the
/// verdict does not read the status at all when the URLs differ.
pub proof fn lemma_redirect_is_not_found(requested: Seq<char>, resolved: Seq<char>, status: u16)
    requires
        resolved != requested,
    ensures
        spec_download_verdict(requested, resolved, status) == Err::<(), DoxieError>(
            DoxieError::NotFound,
        ),
{
}

} // verus!
