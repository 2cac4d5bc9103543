//! The HTTP interface of the browser: requests, and responses that are read piece by
//! piece.

use crate::bytes::{
    header_end, header_end_index, header_end_is_stable, text_of_bytes, utf8_text,
};
use crate::number::{decimal, decimal_of, parse_u16, parse_usize, u16_in, usize_in};
use crate::text::{
    chars_of, cut, cut_text, eq_ignoring_case, first_word_is_read, index_of, is_word,
    lemma_index_of, lines, lines_of, lowered, pieces, split_once, split_once_str, split_white,
    string_of, trim, trimmed, white, words,
};
use vstd::prelude::*;

verus! {

/// A longer response is refused.
pub const MAX_CDP_HTTP_RESPONSE_BYTES: usize = 4194304;

/// A response of the browser.
#[derive(Debug)]
pub struct HttpResponse {
    pub status: u16,
    pub body: String,
}

/// The request of a method on a path.
pub fn request_text(method: &str, path: &str, port: u16) -> (r: String)
    ensures
        r@ == method@ + " "@ + path@ + " HTTP/1.1\r\nHost: localhost:"@ + decimal(port as nat)
            + "\r\nConnection: close\r\n\r\n"@,
{
    method.to_string().concat(" ").concat(path).concat(" HTTP/1.1\r\nHost: localhost:").concat(
        decimal_of(port as u64).as_str(),
    ).concat("\r\nConnection: close\r\n\r\n")
}

/// Whether a status is one of success.
pub open spec fn is_success_status(status: u16) -> bool {
    200 <= status < 300
}

/// Whether a status is one of success.
pub fn is_success(status: u16) -> (r: bool)
    ensures
        r == is_success_status(status),
{
    200 <= status && status < 300
}

/// What is reported of a status that is none of success.
pub fn status_error(status: u16) -> (r: String)
    ensures
        r@ == "CDP 返回 HTTP "@ + decimal(status as nat),
{
    "CDP 返回 HTTP ".to_string().concat(decimal_of(status as u64).as_str())
}

/// The length that a header line declares.
pub open spec fn declared_length(line: Seq<char>) -> Option<usize> {
    match cut(line, ':') {
        Some((name, value)) => if lowered(name) == lowered("content-length"@) {
            usize_in(trimmed(value), 10)
        } else {
            None
        },
        None => None,
    }
}

/// The length that the first header line with one declares.
pub open spec fn first_length(lines: Seq<Seq<char>>) -> Option<usize>
    decreases lines.len(),
{
    if lines.len() == 0 {
        None
    } else {
        match declared_length(lines[0]) {
            Some(n) => Some(n),
            None => first_length(lines.skip(1)),
        }
    }
}

fn length_in_line(line: &[char]) -> (r: Option<usize>)
    ensures
        r == declared_length(line@),
{
    match split_once(line, ':') {
        Some((name, value)) => {
            let wanted: Vec<char> = chars_of("content-length");
            if eq_ignoring_case(name, wanted.as_slice()) {
                parse_usize(trim(value), 10)
            } else {
                None
            }
        },
        None => None,
    }
}

/// The length that headers declare for the body.
pub fn content_length_from_headers(headers: &str) -> (r: Option<usize>)
    ensures
        r == first_length(lines_of(headers@)),
{
    let chars: Vec<char> = chars_of(headers);
    let all: Vec<&[char]> = lines(chars.as_slice());
    let ghost want = lines_of(headers@);
    let mut i: usize = 0;
    assert(want.skip(0) =~= want);
    while i < all.len()
        invariant
            i <= all@.len(),
            pieces(all@) == want,
            want == lines_of(headers@),
            first_length(want.skip(i as int)) == first_length(want),
        decreases all@.len() - i,
    {
        assert(want.skip(i as int)[0] == all@[i as int]@);
        assert(want.skip(i as int).skip(1) =~= want.skip(i + 1));
        if let Some(n) = length_in_line(all[i]) {
            return Some(n);
        }
        i = i + 1;
    }
    None
}

/// The status in the headers of a response.
pub open spec fn status_in(headers: Seq<char>) -> Option<u16> {
    if lines_of(headers).len() > 0 && words(lines_of(headers)[0]).len() > 1 {
        u16_in(words(lines_of(headers)[0])[1])
    } else {
        None
    }
}

/// The status in the headers of a response.
pub fn find_status(headers: &[char]) -> (r: Option<u16>)
    ensures
        r == status_in(headers@),
{
    let all: Vec<&[char]> = lines(headers);
    assert(pieces(all@).len() == all@.len());
    if all.len() == 0 {
        return None;
    }
    assert(pieces(all@)[0] == all@[0]@);
    let parts: Vec<&[char]> = split_white(all[0]);
    assert(pieces(parts@).len() == parts@.len());
    if parts.len() < 2 {
        return None;
    }
    assert(pieces(parts@)[1] == parts@[1]@);
    parse_u16(parts[1])
}

/// The headers and the body of a response.
pub open spec fn head_and_body(raw: Seq<char>) -> (Seq<char>, Seq<char>) {
    match cut_text(raw, "\r\n\r\n"@) {
        Some((head, body)) => (head, body),
        None => (raw, Seq::empty()),
    }
}

/// The status and the body of a response.
pub fn parse_http_response(raw: &str) -> (r: Result<HttpResponse, String>)
    ensures
        match r {
            Ok(h) => status_in(head_and_body(raw@).0) == Some(h.status) && h.body@ == head_and_body(
                raw@,
            ).1,
            Err(e) => status_in(head_and_body(raw@).0) is None && e@ == "无法解析 CDP HTTP 响应"@,
        },
{
    let chars: Vec<char> = chars_of(raw);
    let (status, body): (Option<u16>, String) = match split_once_str(chars.as_slice(), "\r\n\r\n") {
        Some((head, body)) => (find_status(head), string_of(body)),
        None => (find_status(chars.as_slice()), String::new()),
    };
    match status {
        Some(status) => Ok(HttpResponse { status, body }),
        None => Err("无法解析 CDP HTTP 响应".to_string()),
    }
}

/// A response that is being read.
#[derive(Debug)]
pub struct HttpReader {
    pub raw: Vec<u8>,
    /// The length of the whole response, once its headers are read and declare one.
    pub expected: Option<usize>,
}

/// What has been read of a response.
pub struct ReaderModel {
    pub raw: Seq<u8>,
    pub expected: Option<usize>,
}

impl View for HttpReader {
    type V = ReaderModel;

    open spec fn view(&self) -> ReaderModel {
        ReaderModel { raw: self.raw@, expected: self.expected }
    }
}

/// What a piece of a response leads to.
#[derive(Debug)]
pub enum ReadStep {
    /// More has to be read.
    More,
    Done(String),
    Failed(String),
}

/// What a `ReadStep` says.
pub enum ReadView {
    More,
    Done(Seq<char>),
    Failed(Seq<char>),
}

impl View for ReadStep {
    type V = ReadView;

    open spec fn view(&self) -> ReadView {
        match *self {
            ReadStep::More => ReadView::More,
            ReadStep::Done(t) => ReadView::Done(t@),
            ReadStep::Failed(t) => ReadView::Failed(t@),
        }
    }
}

/// The length of a response by the length of its headers and of its body.
pub open spec fn whole_length(head: int, body: usize) -> usize {
    if head + body > usize::MAX {
        usize::MAX
    } else {
        (head + body) as usize
    }
}

/// What a complete response comes to.
pub open spec fn completed(bytes: Seq<u8>) -> ReadView {
    match utf8_text(bytes) {
        Ok(t) => ReadView::Done(t),
        Err(e) => ReadView::Failed("CDP HTTP 响应不是 UTF-8："@ + e),
    }
}

impl ReaderModel {
    /// What follows once the headers of `end` bytes are read.
    pub open spec fn with_headers(self, end: int) -> (ReaderModel, ReadView) {
        match utf8_text(self.raw.take(end)) {
            Err(e) => (self, ReadView::Failed("CDP HTTP 响应头不是 UTF-8："@ + e)),
            Ok(head) => match first_length(lines_of(head)) {
                None => (self, completed(self.raw)),
                Some(n) => {
                    let whole = whole_length(end, n);
                    (
                        ReaderModel { raw: self.raw, expected: Some(whole) },
                        if self.raw.len() >= whole {
                            completed(self.raw.take(whole as int))
                        } else {
                            ReadView::More
                        },
                    )
                },
            },
        }
    }

    /// What the end of the input leads to.
    pub open spec fn at_end(self) -> (ReaderModel, ReadView) {
        match self.expected {
            Some(_) => (self, ReadView::Failed("CDP HTTP 响应体提前结束"@)),
            None => match header_end(self.raw) {
                None => (self, ReadView::Failed("CDP HTTP 响应缺少响应头"@)),
                Some(k) => self.with_headers(k),
            },
        }
    }

    /// What another piece leads to; an empty one is the end of the input.
    pub open spec fn fed(self, piece: Seq<u8>) -> (ReaderModel, ReadView) {
        let s = ReaderModel { raw: self.raw + piece, expected: self.expected };
        if piece.len() == 0 {
            self.at_end()
        } else if s.raw.len() > MAX_CDP_HTTP_RESPONSE_BYTES {
            (s, ReadView::Failed("CDP HTTP 响应过大"@))
        } else {
            match s.expected {
                Some(whole) => (
                    s,
                    if s.raw.len() >= whole {
                        completed(s.raw.take(whole as int))
                    } else {
                        ReadView::More
                    },
                ),
                None => match header_end(s.raw) {
                    None => (s, ReadView::More),
                    Some(k) => s.with_headers(k),
                },
            }
        }
    }

    /// Before its headers are complete a response has no known length.
    pub open spec fn well_formed(self) -> bool {
        self.raw.len() <= MAX_CDP_HTTP_RESPONSE_BYTES && (self.expected is None ==> header_end(
            self.raw,
        ) is None)
    }
}

fn first_bytes(raw: &Vec<u8>, n: usize) -> (r: Vec<u8>)
    requires
        n <= raw@.len(),
    ensures
        r@ == raw@.take(n as int),
{
    let mut out: Vec<u8> = Vec::new();
    out.extend_from_slice(&raw[0..n]);
    assert(out@ =~= raw@.take(n as int));
    out
}

fn complete(bytes: Vec<u8>) -> (r: ReadStep)
    ensures
        r@ == completed(bytes@),
{
    match text_of_bytes(bytes) {
        Ok(t) => ReadStep::Done(t),
        Err(e) => ReadStep::Failed("CDP HTTP 响应不是 UTF-8：".to_string().concat(e.as_str())),
    }
}

impl HttpReader {
    /// A response of which nothing is read yet.
    pub fn new() -> (r: HttpReader)
        ensures
            r@.raw == Seq::<u8>::empty(),
            r@.expected is None,
            r@.well_formed(),
    {
        let r: HttpReader = HttpReader { raw: Vec::new(), expected: None };
        assert(header_end(r.raw@) is None);
        r
    }

    fn take_headers(&mut self, end: usize) -> (r: ReadStep)
        requires
            end <= old(self).raw@.len(),
        ensures
            (final(self)@, r@) == old(self)@.with_headers(end as int),
    {
        match text_of_bytes(first_bytes(&self.raw, end)) {
            Err(e) => ReadStep::Failed(
                "CDP HTTP 响应头不是 UTF-8：".to_string().concat(e.as_str()),
            ),
            Ok(head) => match content_length_from_headers(head.as_str()) {
                None => complete(self.raw.clone()),
                Some(n) => {
                    let whole: usize = end.saturating_add(n);
                    self.expected = Some(whole);
                    if self.raw.len() >= whole {
                        complete(first_bytes(&self.raw, whole))
                    } else {
                        ReadStep::More
                    }
                },
            },
        }
    }

    /// Takes in another piece of the response; an empty one is the end of the input.
    pub fn feed(&mut self, piece: &[u8]) -> (r: ReadStep)
        requires
            old(self)@.well_formed(),
        ensures
            (final(self)@, r@) == old(self)@.fed(piece@),
            r@ is More ==> final(self)@.well_formed(),
    {
        if piece.len() == 0 {
            if self.expected.is_some() {
                return ReadStep::Failed("CDP HTTP 响应体提前结束".to_string());
            }
            return match header_end_index(self.raw.as_slice()) {
                None => ReadStep::Failed("CDP HTTP 响应缺少响应头".to_string()),
                Some(k) => self.take_headers(k),
            };
        }
        self.raw.extend_from_slice(piece);
        assert(self.raw@ =~= old(self).raw@ + piece@);
        if self.raw.len() > MAX_CDP_HTTP_RESPONSE_BYTES {
            return ReadStep::Failed("CDP HTTP 响应过大".to_string());
        }
        match self.expected {
            Some(whole) => {
                if self.raw.len() >= whole {
                    complete(first_bytes(&self.raw, whole))
                } else {
                    ReadStep::More
                }
            },
            None => match header_end_index(self.raw.as_slice()) {
                None => ReadStep::More,
                Some(k) => self.take_headers(k),
            },
        }
    }
}

/// What a response is read as does not depend on the pieces in which it arrives: two
/// pieces lead to what both together lead to.
pub proof fn pieces_can_be_joined(s: ReaderModel, a: Seq<u8>, b: Seq<u8>)
    requires
        s.well_formed(),
        a.len() > 0,
        b.len() > 0,
        s.fed(a).1 is More,
    ensures
        s.fed(a).0.fed(b).1 == s.fed(a + b).1,
{
    let first = s.raw + a;
    let all = s.raw + (a + b);
    assert(first + b =~= all);
    if s.expected is None && header_end(first) is Some {
        header_end_is_stable(first, b);
        crate::bytes::lemma_bytes_from(first, crate::bytes::blank_line(), 0);
        let k = header_end(first)->0;
        assert(all.take(k) =~= first.take(k));
    }
}

/// A line declares the length of a body by the name of that header, in any case, and the
/// number behind it.
pub proof fn length_header_is_read(name: Seq<char>, n: usize)
    requires
        lowered(name) == "content-length"@,
    ensures
        declared_length(name + ": "@ + decimal(n as nat)) == Some(n),
{
    reveal_strlit(": ");
    reveal_strlit("content-length");
    let digits = decimal(n as nat);
    let line = name + ": "@ + digits;
    let k = name.len() as int;
    crate::number::decimal_is_digits(n as nat);
    crate::number::decimal_reads_back(n as nat, usize::MAX as int);
    crate::text::lower_case_changes_capitals(name);
    assert(lowered(name).len() == k);
    assert forall|j: int| 0 <= j < k implies line[j] != ':' by {
        assert(line[j] == name[j]);
        assert(lowered(name)[j] == "content-length"@[j]);
    }
    assert(line[k] == ':');
    crate::text::lemma_index_of_is(line, ':', k);
    assert(line.take(k) =~= name);
    let value = line.skip(k + 1);
    assert(value =~= " "@ + digits) by {
        reveal_strlit(" ");
    }
    reveal_strlit(" ");
    assert(value[0] == ' ');
    assert(value.skip(1) =~= digits);
    let m = digits.len() as int;
    assert(!crate::text::white(digits[0]) && !crate::text::white(digits[m - 1]));
    assert(crate::text::white(' '));
    assert(crate::text::trim_start(digits) == digits);
    assert(crate::text::trim_start(value) == digits);
    assert(crate::text::trim_end(digits) == digits);
    assert("content-length"@ =~= lowered("content-length"@));
}

/// The length of a body is that of the first line that declares one, and none exactly where no
/// line does.
pub proof fn first_declared_length_counts(lines: Seq<Seq<char>>)
    ensures
        match first_length(lines) {
            Some(n) => exists|i: int|
                0 <= i < lines.len() && declared_length(#[trigger] lines[i]) == Some(n) && forall|
                    j: int,
                |
                    0 <= j < i ==> declared_length(#[trigger] lines[j]) is None,
            None => forall|j: int|
                0 <= j < lines.len() ==> declared_length(#[trigger] lines[j]) is None,
        },
    decreases lines.len(),
{
    if lines.len() > 0 {
        let rest = lines.skip(1);
        if declared_length(lines[0]) is Some {
            assert(declared_length(lines[0]) == first_length(lines));
        } else {
            first_declared_length_counts(rest);
            match first_length(rest) {
                Some(n) => {
                    let i = choose|i: int|
                        0 <= i < rest.len() && declared_length(#[trigger] rest[i]) == Some(n)
                            && forall|j: int|
                            0 <= j < i ==> declared_length(#[trigger] rest[j]) is None;
                    assert(lines[i + 1] == rest[i]);
                    assert forall|j: int| 0 <= j < i + 1 implies declared_length(
                        #[trigger] lines[j],
                    ) is None by {
                        if j > 0 {
                            assert(lines[j] == rest[j - 1]);
                        }
                    }
                },
                None => {
                    assert forall|j: int| 0 <= j < lines.len() implies declared_length(
                        #[trigger] lines[j],
                    ) is None by {
                        if j > 0 {
                            assert(lines[j] == rest[j - 1]);
                        }
                    }
                },
            }
        }
    }
}

/// A response is read to the end that its headers declare, not before and not beyond, in
/// whatever pieces it comes.
pub proof fn response_is_read_to_its_end(
    head: Seq<u8>,
    body: Seq<u8>,
    more: Seq<u8>,
    cut_at: int,
)
    requires
        header_end(head) == Some(head.len() as int),
        utf8_text(head) is Ok,
        first_length(lines_of(utf8_text(head)->Ok_0)) == Some(body.len() as usize),
        head.len() + body.len() + more.len() <= 4194304,
        0 <= cut_at < body.len(),
    ensures
        ({
            let none = ReaderModel { raw: Seq::empty(), expected: None };
            &&& none.fed(head + body + more).1 == (match utf8_text(head + body) {
                Ok(t) => ReadView::Done(t),
                Err(e) => ReadView::Failed("CDP HTTP 响应不是 UTF-8："@ + e),
            })
            &&& none.fed(head + body.take(cut_at)).1 is More
        }),
{
    let none = ReaderModel { raw: Seq::empty(), expected: None };
    let all = head + body + more;
    header_end_is_stable(head, body + more);
    assert(head + (body + more) =~= all);
    assert(none.raw + all =~= all);
    assert(all.take(head.len() as int) =~= head);
    assert(all.take((head.len() + body.len()) as int) =~= head + body);
    let part = head + body.take(cut_at);
    header_end_is_stable(head, body.take(cut_at));
    assert(none.raw + part =~= part);
    assert(part.take(head.len() as int) =~= head);
    crate::bytes::lemma_bytes_from(head, crate::bytes::blank_line(), 0);
}

/// The status of a response is the number behind the protocol in its first line.
pub proof fn status_line_is_read(protocol: Seq<char>, status: u16, rest: Seq<char>)
    requires
        protocol.len() > 0,
        is_word(protocol),
        !rest.contains('\n'),
        rest.len() > 0 ==> rest.last() != '\r',
    ensures
        status_in(protocol + " "@ + decimal(status as nat) + " "@ + rest) == Some(status),
{
    reveal_strlit(" ");
    let digits = decimal(status as nat);
    let line = protocol + " "@ + digits + " "@ + rest;
    crate::number::decimal_is_digits(status as nat);
    crate::number::decimal_reads_back(status as nat, u16::MAX as int);
    let n = protocol.len() as int;
    let m = digits.len() as int;
    assert forall|j: int| 0 <= j < line.len() implies line[j] != '\n' by {
        if j < n {
            assert(line[j] == protocol[j]);
            assert(!white(protocol[j]));
        } else if n < j < n + 1 + m {
            assert(line[j] == digits[j - n - 1]);
        } else if j > n + 1 + m {
            assert(line[j] == rest[j - n - m - 2]);
            assert(rest.contains(rest[j - n - m - 2]));
        }
    }
    lemma_index_of(line, '\n');
    if index_of(line, '\n') < line.len() {
        assert(line[index_of(line, '\n')] != '\n');
    }
    assert(lines_of(line) =~= seq![line]);
    let after = digits + " "@ + rest;
    assert(line =~= protocol + (" "@ + after));
    assert(is_word(digits)) by {
        assert forall|j: int| 0 <= j < m implies !white(#[trigger] digits[j]) by {}
    }
    first_word_is_read(protocol, after);
    assert(after =~= digits + (" "@ + rest));
    first_word_is_read(digits, rest);
    assert(words(line)[1] == words(after)[0]);
}

} // verus!
