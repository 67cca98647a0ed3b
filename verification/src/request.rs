//! What the listener does with one inbound request.

use crate::scan::{
    find_first_word, find_second_word, first_line, first_stop, first_word, halts, is_space,
    lemma_first_stop, lemma_first_stop_unique, lemma_second_word_span, scan, second_word,
    span_is, span_starts_with, Stop,
};
use vstd::prelude::*;
use vstd::slice::slice_subrange;
use vstd::string::{StrSliceExecFns, StringExecFns};
use vstd::utf8::{decode_utf8, valid_utf8};

verus! {

/// The loopback address and port the listener binds.
pub const BIND_ADDRESS: &'static str = "127.0.0.1:8090";

/// The scheme put before `BIND_ADDRESS` in a captured URL.
pub const SCHEME: &'static str = "http://";

/// The name of the event that carries a captured URL to the application.
pub const EVENT_NAME: &'static str = "google_auth_callback";

/// The method of the follow-up request that carries the credentials.
pub const METHOD: &'static str = "GET";

/// What the path of the follow-up request begins with.
pub const CALLBACK_PATH: &'static str = "/callback";

/// Status line and blank line that open every response.
pub const RESPONSE_HEAD: &'static str = "HTTP/1.1 200 OK\r\n\r\n";

/// The page that tells the browser tab to close itself.
pub const CLOSING_PAGE: &'static str = "<script>window.close()</script><h1>Login OK!</h1>";

/// The page whose script moves the fragment of the browser's current URL into
/// a query string and requests the callback endpoint with it; where there is
/// no fragment but a query, it requests the callback endpoint with that query.
pub const REWRITE_PAGE: &'static str = r#"
                                    <html><body><script>
                                        // Lấy token từ dấu thăng (#)
                                        var hash = window.location.hash;
                                        if (hash) {
                                            // Gọi lại server với dạng query (?) để Rust đọc được
                                            fetch('/callback' + hash.replace('#', '?'));
                                            document.body.innerHTML = '<h1>Dang xu ly...</h1>';
                                        } else {
                                            // Phòng trường hợp Google trả về query sẵn
                                            var search = window.location.search;
                                            if (search) fetch('/callback' + search);
                                        }
                                    </script></body></html>
                                "#;

/// What one request amounts to, over plain character sequences.
pub enum Verdict {
    /// Not the follow-up: serve the rewrite page and keep listening.
    Rewrite,
    /// The follow-up: emit this URL, serve the closing page and stop.
    Capture(Seq<char>),
}

/// What one request amounts to.
#[derive(Debug, PartialEq, Eq)]
pub enum Outcome {
    /// Not the follow-up: serve the rewrite page and keep listening.
    Rewrite,
    /// The follow-up: emit this URL, serve the closing page and stop.
    Capture(String),
}

impl View for Outcome {
    type V = Verdict;

    open spec fn view(&self) -> Verdict {
        match self {
            Outcome::Rewrite => Verdict::Rewrite,
            Outcome::Capture(url) => Verdict::Capture(url@),
        }
    }
}

/// The method of a request: the first word of its first line.
pub open spec fn request_method(text: Seq<char>) -> Option<Seq<char>> {
    first_word(first_line(text))
}

/// The path a request asks for: the second word of its first line.
pub open spec fn requested_path(text: Seq<char>) -> Option<Seq<char>> {
    second_word(first_line(text))
}

/// Whether a request is the follow-up: its first line asks, by `METHOD`, for
/// a path that begins with `CALLBACK_PATH`. Nothing behind the first line
/// counts.
pub open spec fn is_callback(text: Seq<char>) -> bool {
    &&& request_method(text) == Some(METHOD@)
    &&& requested_path(text) is Some
    &&& CALLBACK_PATH@.is_prefix_of(requested_path(text)->Some_0)
}

/// The URL reported for a request that asks for `path`.
pub open spec fn callback_url(path: Seq<char>) -> Seq<char> {
    SCHEME@ + BIND_ADDRESS@ + path
}

/// The verdict on a request whose decoded text is `text`: the follow-up is
/// captured under its path, any other request gets the rewrite page.
pub open spec fn classify(text: Seq<char>) -> Verdict {
    if is_callback(text) {
        Verdict::Capture(callback_url(requested_path(text)->Some_0))
    } else {
        Verdict::Rewrite
    }
}

/// The full response served for a verdict.
pub open spec fn response_text(verdict: Verdict) -> Seq<char> {
    match verdict {
        Verdict::Rewrite => RESPONSE_HEAD@ + REWRITE_PAGE@,
        Verdict::Capture(_) => RESPONSE_HEAD@ + CLOSING_PAGE@,
    }
}

/// Every captured URL begins with scheme, address and the callback path.
pub proof fn lemma_captured_url_prefix(text: Seq<char>)
    ensures
        classify(text) is Capture ==> (SCHEME@ + BIND_ADDRESS@ + CALLBACK_PATH@).is_prefix_of(
            classify(text)->Capture_0,
        ),
{
    if classify(text) is Capture {
        let path = requested_path(text)->Some_0;
        let origin = SCHEME@ + BIND_ADDRESS@;
        let stem = origin + CALLBACK_PATH@;
        assert(path.subrange(0, CALLBACK_PATH@.len() as int) == CALLBACK_PATH@);
        assert((origin + path).subrange(0, stem.len() as int) =~= stem);
    }
}

/// A captured URL is scheme and address followed by the requested path, and
/// that path is not empty and holds no white space.
pub proof fn lemma_captured_url_shape(text: Seq<char>)
    requires
        classify(text) is Capture,
    ensures
        is_callback(text),
        classify(text)->Capture_0 == callback_url(requested_path(text)->Some_0),
        requested_path(text)->Some_0.len() > 0,
        forall|i: int|
            0 <= i < requested_path(text)->Some_0.len() ==> !is_space(
                #[trigger] requested_path(text)->Some_0[i],
            ),
{
    lemma_second_word_span(first_line(text));
}

/// The verdict rests on the first line alone: two requests with the same
/// first line get the same verdict, whatever their headers and bodies hold.
pub proof fn lemma_only_first_line_counts(one: Seq<char>, other: Seq<char>)
    requires
        first_line(one) == first_line(other),
    ensures
        classify(one) == classify(other),
{
}

/// The text of a request that opens with `method`, one space and `path`,
/// goes on with `sep` and ends with `rest`.
pub open spec fn request_text(method: Seq<char>, path: Seq<char>, sep: char, rest: Seq<char>) -> Seq<
    char,
> {
    method + seq![' '] + path + seq![sep] + rest
}

/// Where method and path are not empty and hold no white space, and `sep` is
/// white space, a request of the shape of `request_text` has that method and
/// asks for that path, whatever `rest` holds.
pub proof fn lemma_request_line_words(
    method: Seq<char>,
    path: Seq<char>,
    sep: char,
    rest: Seq<char>,
)
    requires
        method.len() > 0,
        path.len() > 0,
        forall|i: int| 0 <= i < method.len() ==> !is_space(#[trigger] method[i]),
        forall|i: int| 0 <= i < path.len() ==> !is_space(#[trigger] path[i]),
        is_space(sep),
    ensures
        request_method(request_text(method, path, sep, rest)) == Some(method),
        requested_path(request_text(method, path, sep, rest)) == Some(path),
{
    let text = request_text(method, path, sep, rest);
    let m = method.len() as int;
    let n = path.len() as int;
    let gap = m + 1;
    assert(text.len() == gap + n + 1 + rest.len());
    assert forall|i: int| 0 <= i < m implies text[i] == method[i] by {}
    assert(text[m] == ' ');
    assert forall|i: int| 0 <= i < n implies text[gap + i] == path[i] by {}
    assert(text[gap + n] == sep);

    let end = first_stop(text, 0, Stop::LineFeed);
    lemma_first_stop(text, 0, Stop::LineFeed);
    assert(is_space('\n'));
    assert(is_space(' '));
    assert(end >= gap + n) by {
        if end < gap + n {
            assert(text[end] == '\n');
            if end < m {
                assert(text[end] == method[end]);
            } else if end > m {
                assert(text[end] == path[end - gap]);
            }
        }
    }
    let line = first_line(text);
    assert(line.len() == end);
    assert forall|j: int| 0 <= j < m implies !halts(Stop::Space, #[trigger] line[j]) by {
        assert(line[j] == method[j]);
    }
    assert(line[m] == ' ');
    assert forall|j: int| gap <= j < gap + n implies !halts(Stop::Space, #[trigger] line[j]) by {
        assert(line[j] == path[j - gap]);
    }
    assert(!is_space(line[0]));
    assert(!halts(Stop::Space, line[gap]));
    if gap + n < end {
        assert(line[gap + n] == sep);
    }
    lemma_first_stop_unique(line, 0, Stop::Word, 0);
    lemma_first_stop_unique(line, 0, Stop::Space, m);
    lemma_first_stop_unique(line, m, Stop::Word, gap);
    lemma_first_stop_unique(line, gap, Stop::Space, gap + n);
    assert(line.subrange(0, m) =~= method);
    assert(line.subrange(gap, gap + n) =~= path);
}

/// A request that opens with `GET`, one space and a path that begins with
/// `/callback` and holds no white space, followed by white space and anything
/// at all, is captured, and the URL reported holds that path unchanged.
pub proof fn lemma_callback_round_trip(path: Seq<char>, sep: char, rest: Seq<char>)
    requires
        CALLBACK_PATH@.is_prefix_of(path),
        forall|i: int| 0 <= i < path.len() ==> !is_space(#[trigger] path[i]),
        is_space(sep),
    ensures
        classify(request_text(METHOD@, path, sep, rest)) == Verdict::Capture(callback_url(path)),
{
    reveal_strlit("GET");
    reveal_strlit("/callback");
    lemma_request_line_words(METHOD@, path, sep, rest);
}

/// A request of the shape of `request_text` whose method is not `GET`, or
/// whose path does not begin with `/callback`, gets the rewrite page,
/// whatever `rest` holds.
pub proof fn lemma_other_request_is_rewritten(
    method: Seq<char>,
    path: Seq<char>,
    sep: char,
    rest: Seq<char>,
)
    requires
        method.len() > 0,
        path.len() > 0,
        forall|i: int| 0 <= i < method.len() ==> !is_space(#[trigger] method[i]),
        forall|i: int| 0 <= i < path.len() ==> !is_space(#[trigger] path[i]),
        is_space(sep),
        method != METHOD@ || !CALLBACK_PATH@.is_prefix_of(path),
    ensures
        classify(request_text(method, path, sep, rest)) == Verdict::Rewrite,
{
    lemma_request_line_words(method, path, sep, rest);
}

/// The characters of `text`, in order.
pub fn chars_of(text: &str) -> (chars: Vec<char>)
    ensures
        chars@ == text@,
{
    let mut chars: Vec<char> = Vec::new();
    for c in it: text.chars()
        invariant
            it.seq() == text@,
            chars@ == it.seq().take(it.index() as int),
    {
        chars.push(c);
        assert(chars@ =~= it.seq().take(it.index() + 1));
    }
    assert(chars@ =~= text@);
    chars
}

impl Outcome {
    /// Whether the listener stops after this request.
    pub fn is_final(&self) -> (r: bool)
        ensures
            r == (self@ is Capture),
    {
        match self {
            Outcome::Capture(_) => true,
            Outcome::Rewrite => false,
        }
    }

    /// The full response to write to the connection.
    pub fn response(&self) -> (text: String)
        ensures
            text@ == response_text(self@),
    {
        let head = String::from_str(RESPONSE_HEAD);
        match self {
            Outcome::Rewrite => head.concat(REWRITE_PAGE),
            Outcome::Capture(_) => head.concat(CLOSING_PAGE),
        }
    }
}

/// What lossy UTF-8 decoding makes of bytes that are not well-formed UTF-8.
pub uninterp spec fn lossy_text(bytes: Seq<u8>) -> Seq<char>;

/// The text a request's bytes are read as: the text they encode where they
/// are well-formed UTF-8, their lossy decoding where they are not.
pub open spec fn decoded(bytes: Seq<u8>) -> Seq<char> {
    if valid_utf8(bytes) {
        decode_utf8(bytes)
    } else {
        lossy_text(bytes)
    }
}

/// Calls `String::from_utf8_lossy`. Trusted, not proved: well-formed UTF-8
/// comes back as the text it encodes; of any other input the result is only
/// named, as a function of the bytes.
#[verifier::external_body]
fn decode_lossy(bytes: &[u8]) -> (text: String)
    ensures
        valid_utf8(bytes@) ==> text@ == decode_utf8(bytes@),
        !valid_utf8(bytes@) ==> text@ == lossy_text(bytes@),
{
    String::from_utf8_lossy(bytes).into_owned()
}

/// Classifies a request by the bytes read from its connection.
pub fn handle_request(bytes: &[u8]) -> (outcome: Outcome)
    ensures
        outcome@ == classify(decoded(bytes@)),
{
    let text = decode_lossy(bytes);
    classify_text(text.as_str())
}

/// Whether the first line `line` of a request makes it the follow-up, and if
/// so where its path stands.
fn callback_path_span(line: &[char]) -> (span: Option<(usize, usize)>)
    ensures
        match span {
            Some((start, end)) => {
                &&& start < end <= line@.len()
                &&& first_word(line@) == Some(METHOD@)
                &&& second_word(line@) == Some(line@.subrange(start as int, end as int))
                &&& CALLBACK_PATH@.is_prefix_of(line@.subrange(start as int, end as int))
            },
            None => !(first_word(line@) == Some(METHOD@) && second_word(line@) is Some
                && CALLBACK_PATH@.is_prefix_of(second_word(line@)->Some_0)),
        },
{
    let method = chars_of(METHOD);
    let stem = chars_of(CALLBACK_PATH);
    match find_first_word(line) {
        Some((a, b)) => {
            if !span_is(line, a, b, method.as_slice()) {
                return None;
            }
        },
        None => {
            return None;
        },
    }
    match find_second_word(line) {
        Some((start, end)) => {
            if span_starts_with(line, start, end, stem.as_slice()) {
                Some((start, end))
            } else {
                None
            }
        },
        None => None,
    }
}

/// Classifies a request by its decoded text.
pub fn classify_text(text: &str) -> (outcome: Outcome)
    ensures
        outcome@ == classify(text@),
{
    let chars = chars_of(text);
    let line_end = scan(chars.as_slice(), 0, Stop::LineFeed);
    let line = slice_subrange(chars.as_slice(), 0, line_end);
    match callback_path_span(line) {
        Some((start, end)) => {
            let path = text.substring_char(start, end);
            assert(path@ =~= first_line(text@).subrange(start as int, end as int));
            let url = String::from_str(SCHEME).concat(BIND_ADDRESS).concat(path);
            Outcome::Capture(url)
        },
        None => Outcome::Rewrite,
    }
}

} // verus!
