//! Building a response step by step.

use std::io::Write;
use flate2::write::GzEncoder;
use flate2::Compression;
use vstd::prelude::*;
use vstd::string::*;
use crate::request::headers_view;
use crate::response::{body_view, Response, ResponseView};
use crate::status_code::StatusCode;
use crate::text::{decimal, decimal_string, str_eq};

verus! {

/// Stands in a builder for a status that has not been chosen yet.
#[derive(Clone, Copy, Debug, Default)]
pub struct MissingStatusCode;

/// A response in the making. A builder without a status cannot be finished.
#[derive(Debug)]
pub struct ResponseBuilder<S> {
    status_code: S,
    headers: Vec<(String, String)>,
    body: Option<Vec<u8>>,
    set_content_length_header: bool,
}

/// What a builder holds.
pub struct BuilderView<S> {
    pub status_code: S,
    pub headers: Seq<(Seq<char>, Seq<char>)>,
    pub body: Option<Seq<u8>>,
    /// Whether finishing adds the `Content-Length` header.
    pub set_content_length: bool,
}

/// Whether a header may be set by the caller: every header but
/// `Content-Length`, which is always computed.
pub open spec fn settable(header: (Seq<char>, Seq<char>)) -> bool {
    header.0 != "Content-Length"@
}

/// No header of the list is a `Content-Length` header.
pub open spec fn no_length_header(headers: Seq<(Seq<char>, Seq<char>)>) -> bool {
    forall|i: int| 0 <= i < headers.len() ==> settable(#[trigger] headers[i])
}

/// Whether the headers ask for a gzip-encoded body.
pub open spec fn asks_gzip(headers: Seq<(Seq<char>, Seq<char>)>) -> bool {
    exists|i: int|
        0 <= i < headers.len() && #[trigger] headers[i] == ("Content-Encoding"@, "gzip"@)
}

/// What the gzip encoder gives for these bytes at its default level: the gzip
/// stream, or nothing where the encoder reported an error.
pub uninterp spec fn gzip_of(data: Seq<u8>) -> Option<Seq<u8>>;

impl<S> BuilderView<S> {
    /// The builder with the settable ones among `more` added to its headers.
    pub open spec fn with_headers(self, more: Seq<(Seq<char>, Seq<char>)>) -> BuilderView<S> {
        BuilderView {
            headers: self.headers + more.filter(|h: (Seq<char>, Seq<char>)| settable(h)),
            ..self
        }
    }

    /// The builder with this body.
    pub open spec fn with_body(self, body: Seq<u8>) -> BuilderView<S> {
        BuilderView { body: Some(body), ..self }
    }

    /// The builder that adds no `Content-Length` header.
    pub open spec fn without_content_length(self) -> BuilderView<S> {
        BuilderView { set_content_length: false, ..self }
    }
}

impl BuilderView<StatusCode> {
    /// Whether finishing encodes the body: there is a body, and the headers
    /// ask for gzip.
    pub open spec fn encodes(self) -> bool {
        self.body is Some && asks_gzip(self.headers)
    }

    /// Whether the body can be sent: it needs no encoding, or the encoder
    /// gives a stream for it.
    pub open spec fn encodable(self) -> bool {
        self.encodes() ==> gzip_of(self.body->0) is Some
    }

    /// The body as it is sent.
    pub open spec fn sent_body(self) -> Option<Seq<u8>> {
        if self.encodes() {
            gzip_of(self.body->0)
        } else {
            self.body
        }
    }

    /// The response with this body as the one to send: the builder's status
    /// and headers, and after them, unless it is switched off, a
    /// `Content-Length` header with the number of bytes of that body.
    pub open spec fn finished(self, sent: Option<Seq<u8>>) -> ResponseView {
        let length: nat = match sent {
            Some(bytes) => bytes.len(),
            None => 0,
        };
        ResponseView {
            status_code: self.status_code,
            headers: if self.set_content_length {
                self.headers.push(("Content-Length"@, decimal(length)))
            } else {
                self.headers
            },
            body: sent,
        }
    }

    /// The response that the builder stands for.
    pub open spec fn built(self) -> ResponseView {
        self.finished(self.sent_body())
    }
}

/// Headers to add to a response: one, or several.
pub enum ResponsePart {
    Header(String, String),
    Headers(Vec<(String, String)>),
}

impl View for ResponsePart {
    type V = Seq<(Seq<char>, Seq<char>)>;

    open spec fn view(&self) -> Seq<(Seq<char>, Seq<char>)> {
        match self {
            ResponsePart::Header(key, value) => seq![(key@, value@)],
            ResponsePart::Headers(headers) => headers_view(headers@),
        }
    }
}

/// What can be added to a response as headers.
pub trait IntoResponsePart: Sized {
    /// The headers that the value stands for.
    spec fn part(self) -> Seq<(Seq<char>, Seq<char>)>;

    fn into_response_part(self) -> (r: ResponsePart)
        ensures
            r@ == self.part(),
    ;
}

impl IntoResponsePart for (&str, &str) {
    open spec fn part(self) -> Seq<(Seq<char>, Seq<char>)> {
        seq![(self.0@, self.1@)]
    }

    fn into_response_part(self) -> (r: ResponsePart) {
        ResponsePart::Header(self.0.to_owned(), self.1.to_owned())
    }
}

impl IntoResponsePart for (String, String) {
    open spec fn part(self) -> Seq<(Seq<char>, Seq<char>)> {
        seq![(self.0@, self.1@)]
    }

    fn into_response_part(self) -> (r: ResponsePart) {
        ResponsePart::Header(self.0, self.1)
    }
}

impl IntoResponsePart for Vec<(String, String)> {
    open spec fn part(self) -> Seq<(Seq<char>, Seq<char>)> {
        headers_view(self@)
    }

    fn into_response_part(self) -> (r: ResponsePart) {
        ResponsePart::Headers(self)
    }
}

impl IntoResponsePart for Vec<(&str, &str)> {
    open spec fn part(self) -> Seq<(Seq<char>, Seq<char>)> {
        Seq::new(self@.len(), |i: int| (self@[i].0@, self@[i].1@))
    }

    fn into_response_part(self) -> (r: ResponsePart) {
        let mut owned: Vec<(String, String)> = Vec::new();
        let mut k: usize = 0;
        while k < self.len()
            invariant
                k <= self.len(),
                headers_view(owned@) == self.part().take(k as int),
            decreases self.len() - k,
        {
            let pair = self[k];
            let ghost before = headers_view(owned@);
            owned.push((pair.0.to_owned(), pair.1.to_owned()));
            proof {
                assert(self.part()[k as int] == (pair.0@, pair.1@));
                assert(headers_view(owned@) =~= before.push((pair.0@, pair.1@)));
                assert(self.part().take(k + 1) =~= self.part().take(k as int).push(
                    self.part()[k as int],
                ));
            }
            k += 1;
        }
        assert(self.part().take(k as int) =~= self.part());
        ResponsePart::Headers(owned)
    }
}

/// What can be the body of a response.
pub trait IntoBody: Sized {
    /// The bytes that the value stands for.
    spec fn bytes(self) -> Seq<u8>;

    fn into_body(self) -> (r: Vec<u8>)
        ensures
            r@ == self.bytes(),
    ;
}

impl IntoBody for Vec<u8> {
    open spec fn bytes(self) -> Seq<u8> {
        self@
    }

    fn into_body(self) -> (r: Vec<u8>) {
        self
    }
}

impl IntoBody for &str {
    open spec fn bytes(self) -> Seq<u8> {
        self.spec_bytes()
    }

    fn into_body(self) -> (r: Vec<u8>) {
        self.as_bytes_vec()
    }
}

impl IntoBody for String {
    open spec fn bytes(self) -> Seq<u8> {
        vstd::utf8::encode_utf8(self@)
    }

    fn into_body(self) -> (r: Vec<u8>) {
        self.as_str().as_bytes_vec()
    }
}

/// `GzEncoder` of flate2 at the default level, writing into a vector: all of
/// `data` is written, then the stream is finished. The outcome depends on the
/// bytes alone: the finished gzip stream, or nothing where the encoder hands
/// back an error.
#[verifier::external_body]
fn gzip(data: &[u8]) -> (r: Option<Vec<u8>>)
    ensures
        body_view(r) == gzip_of(data@),
{
    let mut encoder = GzEncoder::new(Vec::new(), Compression::default());
    match encoder.write_all(data) {
        Ok(()) => encoder.finish().ok(),
        Err(_) => None,
    }
}

/// Whether some header of the list is `Content-Encoding: gzip`.
pub fn has_gzip_encoding(headers: &Vec<(String, String)>) -> (r: bool)
    ensures
        r == asks_gzip(headers_view(headers@)),
{
    let mut k: usize = 0;
    while k < headers.len()
        invariant
            k <= headers.len(),
            forall|i: int|
                0 <= i < k ==> #[trigger] headers_view(headers@)[i] != (
                    "Content-Encoding"@,
                    "gzip"@,
                ),
        decreases headers.len() - k,
    {
        let header = &headers[k];
        if str_eq(header.0.as_str(), "Content-Encoding") && str_eq(header.1.as_str(), "gzip") {
            assert(headers_view(headers@)[k as int] == ("Content-Encoding"@, "gzip"@));
            return true;
        }
        k += 1;
    }
    false
}

impl<S> View for ResponseBuilder<S> {
    type V = BuilderView<S>;

    closed spec fn view(&self) -> BuilderView<S> {
        BuilderView {
            status_code: self.status_code,
            headers: headers_view(self.headers@),
            body: body_view(self.body),
            set_content_length: self.set_content_length_header,
        }
    }
}

impl ResponseBuilder<MissingStatusCode> {
    /// A builder without a status, headers or a body.
    pub fn new() -> (r: ResponseBuilder<MissingStatusCode>)
        ensures
            r@ == fresh(MissingStatusCode),
    {
        let r = ResponseBuilder {
            status_code: MissingStatusCode,
            headers: Vec::new(),
            body: None,
            set_content_length_header: true,
        };
        assert(r@.headers =~= Seq::empty());
        r
    }

    /// Chooses the status. What the builder holds otherwise stays.
    pub fn with_status_code(self, status_code: StatusCode) -> (r: ResponseBuilder<StatusCode>)
        ensures
            r@ == (BuilderView {
                status_code,
                headers: self@.headers,
                body: self@.body,
                set_content_length: self@.set_content_length,
            }),
    {
        proof {
            use_type_invariant(&self);
        }
        ResponseBuilder {
            status_code,
            headers: self.headers,
            body: self.body,
            set_content_length_header: self.set_content_length_header,
        }
    }

    /// A builder with this status and nothing else.
    pub fn with_status(status_code: StatusCode) -> (r: ResponseBuilder<StatusCode>)
        ensures
            r@ == fresh(status_code),
    {
        let r = ResponseBuilder {
            status_code,
            headers: Vec::new(),
            body: None,
            set_content_length_header: true,
        };
        assert(r@.headers =~= Seq::empty());
        r
    }

    /// A builder for `200 OK`.
    pub fn ok() -> (r: ResponseBuilder<StatusCode>)
        ensures
            r@ == fresh(StatusCode::Okay),
    {
        ResponseBuilder::with_status(StatusCode::Okay)
    }

    /// A builder for `404 Not Found`.
    pub fn not_found() -> (r: ResponseBuilder<StatusCode>)
        ensures
            r@ == fresh(StatusCode::NotFound),
    {
        ResponseBuilder::with_status(StatusCode::NotFound)
    }

    /// A builder for `400 Bad Request`.
    pub fn bad_request() -> (r: ResponseBuilder<StatusCode>)
        ensures
            r@ == fresh(StatusCode::BadRequest),
    {
        ResponseBuilder::with_status(StatusCode::BadRequest)
    }

    /// A builder for `500 Internal Server Error`.
    pub fn internal_server_error() -> (r: ResponseBuilder<StatusCode>)
        ensures
            r@ == fresh(StatusCode::InternalServerError),
    {
        ResponseBuilder::with_status(StatusCode::InternalServerError)
    }
}

/// What a new builder holds: no headers, no body, and the `Content-Length`
/// header switched on.
pub open spec fn fresh<S>(status_code: S) -> BuilderView<S> {
    BuilderView { status_code, headers: Seq::empty(), body: None, set_content_length: true }
}

impl Default for ResponseBuilder<StatusCode> {
    fn default() -> (r: ResponseBuilder<StatusCode>)
        ensures
            r@ == fresh(StatusCode::Okay),
    {
        ResponseBuilder::ok()
    }
}

impl Clone for ResponseBuilder<StatusCode> {
    fn clone(&self) -> (r: Self)
        ensures
            r@ == self@,
    {
        self.copy_with(self.status_code)
    }
}

impl Clone for ResponseBuilder<MissingStatusCode> {
    fn clone(&self) -> (r: Self)
        ensures
            r@ == self@,
    {
        self.copy_with(MissingStatusCode)
    }
}

impl<S> ResponseBuilder<S> {
    #[verifier::type_invariant]
    spec fn no_length_header_set(self) -> bool {
        no_length_header(headers_view(self.headers@))
    }

    /// A copy of the builder's headers, body and switch, with this status.
    fn copy_with<T>(&self, status_code: T) -> (r: ResponseBuilder<T>)
        ensures
            r@ == (BuilderView {
                status_code,
                headers: self@.headers,
                body: self@.body,
                set_content_length: self@.set_content_length,
            }),
    {
        proof {
            use_type_invariant(self);
        }
        let ghost all = headers_view(self.headers@);
        let mut headers: Vec<(String, String)> = Vec::new();
        let mut k: usize = 0;
        proof {
            assert(headers_view(headers@) =~= all.take(0));
        }
        while k < self.headers.len()
            invariant
                k <= self.headers.len(),
                all == headers_view(self.headers@),
                headers_view(headers@) == all.take(k as int),
            decreases self.headers.len() - k,
        {
            let pair = &self.headers[k];
            let ghost before = headers_view(headers@);
            headers.push((pair.0.clone(), pair.1.clone()));
            proof {
                assert(headers_view(headers@) =~= before.push(all[k as int]));
                assert(all.take(k + 1) =~= all.take(k as int).push(all[k as int]));
            }
            k += 1;
        }
        proof {
            assert(all.take(k as int) =~= all);
        }
        let body = match &self.body {
            Some(bytes) => Some(vstd::slice::slice_to_vec(bytes.as_slice())),
            None => None,
        };
        ResponseBuilder {
            status_code,
            headers,
            body,
            set_content_length_header: self.set_content_length_header,
        }
    }

    /// Adds one header, unless it is a `Content-Length` header.
    pub fn header(self, key: &str, value: &str) -> (r: Self)
        ensures
            r@ == self@.with_headers(seq![(key@, value@)]),
            no_length_header(r@.headers),
    {
        proof {
            use_type_invariant(&self);
        }
        let mut headers = self.headers;
        let ghost before = headers_view(headers@);
        let ghost one = seq![(key@, value@)];
        proof {
            reveal(Seq::filter);
            assert(one.drop_last() =~= Seq::empty());
            assert(one.drop_last().filter(|h: (Seq<char>, Seq<char>)| settable(h)) =~= Seq::empty());
        }
        if !str_eq(key, "Content-Length") {
            headers.push((key.to_owned(), value.to_owned()));
            assert(headers_view(headers@) =~= before + one);
            assert(one.filter(|h: (Seq<char>, Seq<char>)| settable(h)) =~= one);
        } else {
            assert(one.filter(|h: (Seq<char>, Seq<char>)| settable(h)) =~= Seq::empty());
            assert(before + Seq::empty() =~= before);
        }
        ResponseBuilder {
            status_code: self.status_code,
            headers,
            body: self.body,
            set_content_length_header: self.set_content_length_header,
        }
    }

    /// Adds the headers of the list, in order, but for `Content-Length`
    /// headers.
    pub fn headers(self, headers: Vec<(String, String)>) -> (r: Self)
        ensures
            r@ == self@.with_headers(headers_view(headers@)),
            no_length_header(r@.headers),
    {
        proof {
            use_type_invariant(&self);
        }
        let mut all = self.headers;
        let ghost before = headers_view(all@);
        let ghost more = headers_view(headers@);
        let ghost keep = |h: (Seq<char>, Seq<char>)| settable(h);
        let mut k: usize = 0;
        proof {
            reveal(Seq::filter);
            assert(more.take(0) =~= Seq::empty());
            assert(before + more.take(0).filter(keep) =~= before);
        }
        while k < headers.len()
            invariant
                k <= headers.len(),
                more == headers_view(headers@),
                keep == |h: (Seq<char>, Seq<char>)| settable(h),
                no_length_header(headers_view(all@)),
                headers_view(all@) == before + more.take(k as int).filter(keep),
            decreases headers.len() - k,
        {
            let pair = &headers[k];
            let ghost sofar = headers_view(all@);
            proof {
                reveal(Seq::filter);
                let upto = more.take(k + 1);
                assert(upto.drop_last() =~= more.take(k as int));
                assert(upto.last() == more[k as int]);
            }
            if !str_eq(pair.0.as_str(), "Content-Length") {
                all.push((pair.0.clone(), pair.1.clone()));
                assert(headers_view(all@) =~= sofar.push(more[k as int]));
                assert(headers_view(all@) =~= before + more.take(k + 1).filter(keep));
            }
            k += 1;
        }
        proof {
            assert(more.take(k as int) =~= more);
        }
        ResponseBuilder {
            status_code: self.status_code,
            headers: all,
            body: self.body,
            set_content_length_header: self.set_content_length_header,
        }
    }

    /// Adds one header or several, but for `Content-Length` headers.
    pub fn with<P: IntoResponsePart>(self, part: P) -> (r: Self)
        ensures
            r@ == self@.with_headers(part.part()),
            no_length_header(r@.headers),
    {
        match part.into_response_part() {
            ResponsePart::Header(key, value) => self.header(key.as_str(), value.as_str()),
            ResponsePart::Headers(headers) => self.headers(headers),
        }
    }

    /// Switches the `Content-Length` header off.
    pub fn without_content_length_header(self) -> (r: Self)
        ensures
            r@ == self@.without_content_length(),
            no_length_header(r@.headers),
    {
        proof {
            use_type_invariant(&self);
        }
        ResponseBuilder {
            status_code: self.status_code,
            headers: self.headers,
            body: self.body,
            set_content_length_header: false,
        }
    }

    /// Sets the body.
    pub fn body<B: IntoBody>(self, body: B) -> (r: Self)
        ensures
            r@ == self@.with_body(body.bytes()),
            no_length_header(r@.headers),
    {
        proof {
            use_type_invariant(&self);
        }
        ResponseBuilder {
            status_code: self.status_code,
            headers: self.headers,
            body: Some(body.into_body()),
            set_content_length_header: self.set_content_length_header,
        }
    }
}

impl ResponseBuilder<StatusCode> {
    /// Finishes the response with `sent` as the body to send.
    pub fn finish(self, sent: Option<Vec<u8>>) -> (r: Response)
        ensures
            r@ == self@.finished(body_view(sent)),
            no_length_header(self@.headers),
    {
        proof {
            use_type_invariant(&self);
        }
        let mut headers = self.headers;
        let length: usize = match &sent {
            Some(bytes) => bytes.len(),
            None => 0,
        };
        if self.set_content_length_header {
            let ghost before = headers_view(headers@);
            headers.push(("Content-Length".to_owned(), decimal_string(length)));
            assert(headers_view(headers@) =~= before.push(
                ("Content-Length"@, decimal(length as nat)),
            ));
        }
        Response { status_code: self.status_code, headers, body: sent }
    }

    /// Finishes the response. Where a `Content-Encoding: gzip` header is set
    /// and there is a body, the body is sent gzip-encoded, and the
    /// `Content-Length` header counts the encoded bytes.
    pub fn build(self) -> (r: Response)
        requires
            self@.encodable(),
        ensures
            r@ == self@.built(),
            no_length_header(self@.headers),
    {
        proof {
            use_type_invariant(&self);
        }
        if self.body.is_some() && has_gzip_encoding(&self.headers) {
            let sent = match &self.body {
                Some(bytes) => gzip(bytes.as_slice()),
                None => None,
            };
            match sent {
                Some(encoded) => self.finish(Some(encoded)),
                None => vstd::pervasive::unreached(),
            }
        } else {
            let plain = ResponseBuilder {
                status_code: self.status_code,
                headers: self.headers,
                body: None,
                set_content_length_header: self.set_content_length_header,
            };
            plain.finish(self.body)
        }
    }

    /// Finishes the response, or hands the builder back where the encoder
    /// gives no stream for the body.
    pub fn try_build(self) -> (r: Result<Response, ResponseBuilder<StatusCode>>)
        ensures
            match r {
                Ok(response) => self@.encodable() && response@ == self@.built(),
                Err(builder) => !self@.encodable() && builder@ == self@,
            },
            no_length_header(self@.headers),
    {
        proof {
            use_type_invariant(&self);
        }
        if self.body.is_some() && has_gzip_encoding(&self.headers) {
            let sent = match &self.body {
                Some(bytes) => gzip(bytes.as_slice()),
                None => None,
            };
            match sent {
                Some(encoded) => Ok(self.finish(Some(encoded))),
                None => Err(self),
            }
        } else {
            Ok(self.build())
        }
    }
}

/// The builder after a `Content-Length` header with each of `values`, in
/// turn, was offered to it.
pub open spec fn offer_lengths<S>(builder: BuilderView<S>, values: Seq<Seq<char>>) -> BuilderView<
    S,
>
    decreases values.len(),
{
    if values.len() == 0 {
        builder
    } else {
        offer_lengths(builder, values.drop_last()).with_headers(
            seq![("Content-Length"@, values.last())],
        )
    }
}

/// Adding headers to a builder without a `Content-Length` header gives one
/// without a `Content-Length` header.
pub proof fn lemma_with_headers_sets_no_length<S>(
    builder: BuilderView<S>,
    more: Seq<(Seq<char>, Seq<char>)>,
)
    requires
        no_length_header(builder.headers),
    ensures
        no_length_header(builder.with_headers(more).headers),
{
    let keep = |h: (Seq<char>, Seq<char>)| settable(h);
    let kept = more.filter(keep);
    let all = builder.with_headers(more).headers;
    assert forall|i: int| 0 <= i < all.len() implies settable(#[trigger] all[i]) by {
        if i >= builder.headers.len() {
            assert(all[i] == kept[i - builder.headers.len()]);
            more.lemma_filter_pred(keep, i - builder.headers.len());
        } else {
            assert(all[i] == builder.headers[i]);
        }
    }
}

/// A `Content-Length` header that is offered to a builder is dropped: the
/// builder stays as it is.
pub proof fn lemma_length_header_is_dropped<S>(builder: BuilderView<S>, value: Seq<char>)
    ensures
        builder.with_headers(seq![("Content-Length"@, value)]) == builder,
{
    let keep = |h: (Seq<char>, Seq<char>)| settable(h);
    let one = seq![("Content-Length"@, value)];
    reveal(Seq::filter);
    assert(one.drop_last() =~= Seq::empty());
    assert(one.drop_last().filter(keep) =~= Seq::empty());
    assert(one.filter(keep) =~= Seq::empty());
    assert(builder.headers + one.filter(keep) =~= builder.headers);
}

/// However many `Content-Length` headers are offered to a builder, it stays
/// as it is.
pub proof fn lemma_offered_lengths_are_dropped<S>(builder: BuilderView<S>, values: Seq<Seq<char>>)
    ensures
        offer_lengths(builder, values) == builder,
    decreases values.len(),
{
    if values.len() > 0 {
        lemma_offered_lengths_are_dropped(builder, values.drop_last());
        lemma_length_header_is_dropped(builder, values.last());
    }
}

/// After any number of `Content-Length` headers were offered to a builder and
/// the length header was then switched off, the response has the builder's
/// headers and no `Content-Length` header among them, whatever the body.
pub proof fn lemma_switched_off_length_header(
    builder: BuilderView<StatusCode>,
    values: Seq<Seq<char>>,
)
    requires
        no_length_header(builder.headers),
    ensures
        offer_lengths(builder, values).without_content_length().built().headers
            == builder.headers,
        no_length_header(
            offer_lengths(builder, values).without_content_length().built().headers,
        ),
{
    lemma_offered_lengths_are_dropped(builder, values);
}

/// A response never has two `Content-Length` headers: where the builder adds
/// one, it is the last header and the only one, and it gives the number of
/// bytes of the body that is sent.
pub proof fn lemma_one_length_header(builder: BuilderView<StatusCode>, sent: Option<Seq<u8>>)
    requires
        no_length_header(builder.headers),
    ensures
        forall|i: int, j: int|
            #![trigger builder.finished(sent).headers[i], builder.finished(sent).headers[j]]
            0 <= i < builder.finished(sent).headers.len() && 0 <= j < builder.finished(
                sent,
            ).headers.len() && !settable(builder.finished(sent).headers[i]) && !settable(
                builder.finished(sent).headers[j],
            ) ==> i == j,
        builder.set_content_length ==> builder.finished(sent).headers.last() == (
            "Content-Length"@,
            decimal(
                match sent {
                    Some(bytes) => bytes.len(),
                    None => 0,
                },
            ),
        ),
        !builder.set_content_length ==> no_length_header(builder.finished(sent).headers),
{
    let headers = builder.finished(sent).headers;
    assert forall|i: int, j: int|
        0 <= i < headers.len() && 0 <= j < headers.len() && !settable(headers[i]) && !settable(
            headers[j],
        ) implies i == j by {
        if i < builder.headers.len() {
            assert(headers[i] == builder.headers[i]);
        }
        if j < builder.headers.len() {
            assert(headers[j] == builder.headers[j]);
        }
    }
}

} // verus!
