//! The request parser: from the bytes of one read to a `Request`.

use vstd::prelude::*;
use vstd::utf8::encode_utf8;
use crate::text::{
    chars_of, contains, contains_chars, decode_lossy, find_char, first_index, join_lines,
    join_with_newlines, lines_of, lossy_text, lower_text, lowercase, same_text, split_lines,
    split_words, string_of, trim, trimmed, views, words_of,
};
use crate::types::{empty_request, ContentType, MethodType, Request, RequestModel};

verus! {

/// The method that a request-line token names; matching is case-sensitive.
pub open spec fn method_of(tok: Seq<char>) -> MethodType {
    if tok == "GET"@ {
        MethodType::GET
    } else if tok == "POST"@ {
        MethodType::POST
    } else if tok == "PUT"@ {
        MethodType::PUT
    } else if tok == "DELETE"@ {
        MethodType::DELETE
    } else {
        MethodType::UNKNOWN
    }
}

pub open spec fn supported_version(tok: Seq<char>) -> bool {
    tok == "HTTP/1.1"@ || tok == "HTTP/1.0"@ || tok == "HTTP/2.0"@
}

/// The content type that a `Content-Type` value names; the first match wins.
pub open spec fn classify(v: Seq<char>) -> ContentType {
    if contains(v, "application/json"@) {
        ContentType::ApplicationJson
    } else if contains(v, "text/html"@) {
        ContentType::TextHtml
    } else if contains(v, "text/plain"@) {
        ContentType::TextPlain
    } else {
        ContentType::Unknown
    }
}

/// A request with one more header: `host` and `content-type` are also recorded
/// in their own fields.
pub open spec fn with_header(m: RequestModel, key: Seq<char>, value: Seq<char>) -> RequestModel {
    RequestModel {
        host: if key == "host"@ {
            value
        } else {
            m.host
        },
        content_type: if key == "content-type"@ {
            classify(value)
        } else {
            m.content_type
        },
        headers: m.headers.push((key, value)),
        ..m
    }
}

/// One header line: split at its first colon; a line without one is skipped.
pub open spec fn apply_line(m: RequestModel, l: Seq<char>) -> RequestModel {
    let p = first_index(l, ':');
    if p == l.len() {
        m
    } else {
        with_header(m, lower_text(trim(l.subrange(0, p))), trim(l.subrange(p + 1, l.len() as int)))
    }
}

pub open spec fn apply_lines(m: RequestModel, ls: Seq<Seq<char>>) -> RequestModel
    decreases ls.len(),
{
    if ls.len() == 0 {
        m
    } else {
        apply_line(apply_lines(m, ls.drop_last()), ls.last())
    }
}

/// Index of the first empty line, or the number of lines where there is none.
pub open spec fn first_empty(ls: Seq<Seq<char>>) -> int
    decreases ls.len(),
{
    if ls.len() == 0 {
        0
    } else if ls[0].len() == 0 {
        0
    } else {
        1 + first_empty(ls.drop_first())
    }
}

/// What parsing a text gives: a request, or the message of the error.
pub open spec fn parse_model(t: Seq<char>) -> Result<RequestModel, Seq<char>> {
    let ls = lines_of(t);
    if ls.len() == 0 {
        Err("Empty request"@)
    } else {
        let w = words_of(ls[0]);
        if w.len() < 3 {
            Err("Invalid request line"@)
        } else if !supported_version(w[2]) {
            Err("Invalid http type "@)
        } else {
            let e = first_empty(ls);
            let start = RequestModel {
                http_v: w[2],
                path: w[1],
                method: method_of(w[0]),
                ..empty_request()
            };
            let m = apply_lines(start, ls.subrange(1, e));
            Ok(
                RequestModel {
                    body: if e < ls.len() {
                        encode_utf8(join_lines(ls.subrange(e + 1, ls.len() as int)))
                    } else {
                        Seq::empty()
                    },
                    ..m
                },
            )
        }
    }
}

pub open spec fn parse_view(r: Result<Request, String>) -> Result<RequestModel, Seq<char>> {
    match r {
        Ok(q) => Ok(q@),
        Err(e) => Err(e@),
    }
}

proof fn lemma_first_empty(ls: Seq<Seq<char>>, i: int)
    requires
        0 <= i <= ls.len(),
        forall|j: int| 0 <= j < i ==> ls[j].len() > 0,
        i == ls.len() || ls[i].len() == 0,
    ensures
        first_empty(ls) == i,
    decreases ls.len(),
{
    if ls.len() > 0 && ls[0].len() > 0 {
        lemma_first_empty(ls.drop_first(), i - 1);
    }
}

pub fn method_from(tok: &Vec<char>) -> (r: MethodType)
    ensures
        r == method_of(tok@),
{
    if same_text(tok, "GET") {
        MethodType::GET
    } else if same_text(tok, "POST") {
        MethodType::POST
    } else if same_text(tok, "PUT") {
        MethodType::PUT
    } else if same_text(tok, "DELETE") {
        MethodType::DELETE
    } else {
        MethodType::UNKNOWN
    }
}

pub fn is_supported_version(tok: &Vec<char>) -> (r: bool)
    ensures
        r == supported_version(tok@),
{
    same_text(tok, "HTTP/1.1") || same_text(tok, "HTTP/1.0") || same_text(tok, "HTTP/2.0")
}

pub fn classify_value(v: &Vec<char>) -> (r: ContentType)
    ensures
        r == classify(v@),
{
    if contains_chars(v, &chars_of("application/json")) {
        ContentType::ApplicationJson
    } else if contains_chars(v, &chars_of("text/html")) {
        ContentType::TextHtml
    } else if contains_chars(v, &chars_of("text/plain")) {
        ContentType::TextPlain
    } else {
        ContentType::Unknown
    }
}

impl Request {
    /// Records one header whose key is already lower-cased and trimmed.
    pub fn add_header(&mut self, key: String, value: String)
        ensures
            final(self)@ == with_header(old(self)@, key@, value@),
    {
        let kc = chars_of(key.as_str());
        let vc = chars_of(value.as_str());
        if same_text(&kc, "host") {
            self.host = value.clone();
        }
        if same_text(&kc, "content-type") {
            self.content_type = classify_value(&vc);
        }
        self.headers.push((key, value));
        assert(self@.headers =~= old(self)@.headers.push((key@, value@)));
    }

    /// Reads one header line into the request; a line without a colon is skipped.
    fn read_header_line(&mut self, l: &Vec<char>)
        ensures
            final(self)@ == apply_line(old(self)@, l@),
    {
        match find_char(l, ':') {
            None => {},
            Some(p) => {
                let n = l.len();
                assert(p < n);
                let raw_key = trimmed(l, 0, p);
                let key = lowercase(&raw_key);
                let value = trimmed(l, p + 1, n);
                self.add_header(string_of(&key), string_of(&value));
            },
        }
    }

    /// Parses decoded request text.
    pub fn parse_chars(text: &Vec<char>) -> (r: Result<Self, String>)
        ensures
            parse_view(r) == parse_model(text@),
    {
        let lines = split_lines(text);
        let ghost ls = views(lines@);
        if lines.len() == 0 {
            return Err(String::from_str("Empty request"));
        }
        let words = split_words(&lines[0]);
        if words.len() < 3 {
            return Err(String::from_str("Invalid request line"));
        }
        if !is_supported_version(&words[2]) {
            return Err(String::from_str("Invalid http type "));
        }
        assert(ls[0].len() > 0) by {
            if ls[0].len() == 0 {
                assert(ls[0] =~= Seq::<char>::empty());
            }
        }
        let mut request = Request::new();
        request.method = method_from(&words[0]);
        request.path = string_of(&words[1]);
        request.http_v = string_of(&words[2]);
        let ghost w = words_of(ls[0]);
        assert(w[0] == words@[0]@ && w[1] == words@[1]@ && w[2] == words@[2]@);
        let ghost start = request@;
        assert(start == RequestModel {
            http_v: w[2],
            path: w[1],
            method: method_of(w[0]),
            ..empty_request()
        });
        let mut i: usize = 1;
        assert(ls.subrange(1, 1) =~= Seq::<Seq<char>>::empty());
        while i < lines.len() && lines[i].len() != 0
            invariant
                1 <= i <= lines@.len(),
                ls == views(lines@),
                forall|j: int| 0 <= j < i ==> ls[j].len() > 0,
                request@ == apply_lines(start, ls.subrange(1, i as int)),
                request@.body == Seq::<u8>::empty(),
            decreases lines@.len() - i,
        {
            assert(ls.subrange(1, i + 1).drop_last() =~= ls.subrange(1, i as int));
            request.read_header_line(&lines[i]);
            i = i + 1;
        }
        proof {
            lemma_first_empty(ls, i as int);
        }
        if i < lines.len() {
            let body = join_with_newlines(&lines, i + 1);
            let body_text = string_of(&body);
            request.body = body_text.as_str().as_bytes_vec();
        }
        let ghost e = i as int;
        assert(request@ == RequestModel {
            body: if e < ls.len() {
                encode_utf8(join_lines(ls.subrange(e + 1, ls.len() as int)))
            } else {
                Seq::empty()
            },
            ..apply_lines(start, ls.subrange(1, e))
        });
        Ok(request)
    }

    /// Parses the bytes of one read from a connection.
    pub fn parse_from_bytes(data: &[u8]) -> (r: Result<Self, String>)
        ensures
            parse_view(r) == parse_model(lossy_text(data@)),
            data@.len() == 0 ==> r is Err,
    {
        let text = decode_lossy(data);
        Self::parse_chars(&text)
    }
}

} // verus!
