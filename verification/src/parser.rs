//! The request parser: from the lines of a request head to a request.
use crate::headers::{inserted, lemma_inserted, distinct_keys, HeaderMap};
use crate::method::HttpMethod;
use crate::request::{HttpRequest, RequestView};
use crate::text::{find_char, is_word, join, join_from, lemma_tokens_after_word,
    lemma_tokens_of_word, opt_view, split_whitespace, to_chars, tokens, views};
use vstd::prelude::*;
use vstd::string::*;

verus! {

/// The three parts of a request target.
pub struct TargetView {
    pub path: Seq<char>,
    pub hash: Option<Seq<char>>,
    pub query_string: Option<Seq<char>>,
}

/// A request target taken apart. A `#` ends the path; what follows it is the
/// fragment up to a `?`, and the query string after that `?`. Without `#`, a
/// `?` ends the path and starts the query string.
pub open spec fn split_target(target: Seq<char>) -> TargetView {
    match target.index_of_first('#') {
        Some(h) => {
            let rest = target.skip(h + 1);
            match rest.index_of_first('?') {
                Some(q) => TargetView {
                    path: target.take(h),
                    hash: Some(rest.take(q)),
                    query_string: Some(rest.skip(q + 1)),
                },
                None => TargetView { path: target.take(h), hash: Some(rest), query_string: None },
            }
        },
        None => match target.index_of_first('?') {
            Some(q) => TargetView {
                path: target.take(q),
                hash: None,
                query_string: Some(target.skip(q + 1)),
            },
            None => TargetView { path: target, hash: None, query_string: None },
        },
    }
}

/// A colon followed by a space stands at `i`.
pub open spec fn separator_at(line: Seq<char>, i: int) -> bool {
    0 <= i && i + 1 < line.len() && line[i] == ':' && line[i + 1] == ' '
}

/// `i` is where the first colon followed by a space stands.
pub open spec fn first_separator(line: Seq<char>, i: int) -> bool {
    separator_at(line, i) && forall|j: int| 0 <= j < i ==> !separator_at(line, j)
}

/// Name and value of a header line: what stands before and after its first
/// colon followed by a space. A line without one is no header.
pub open spec fn header_parts(line: Seq<char>) -> Option<(Seq<char>, Seq<char>)> {
    if exists|i: int| separator_at(line, i) {
        let i = choose|i: int| first_separator(line, i);
        Some((line.take(i), line.skip(i + 2)))
    } else {
        None
    }
}

/// The headers that the lines `lines` give, taken from first to last. A later
/// line with the same name replaces the value; a line that is no header is skipped.
pub open spec fn collect_headers(lines: Seq<Seq<char>>) -> Seq<(Seq<char>, Seq<char>)>
    decreases lines.len(),
{
    if lines.len() == 0 {
        Seq::empty()
    } else {
        let before = collect_headers(lines.drop_last());
        match header_parts(lines.last()) {
            Some((name, value)) => inserted(before, name, value),
            None => before,
        }
    }
}

/// The index of the first empty line at or after `from`, or the number of
/// lines where there is none.
pub open spec fn header_end(lines: Seq<Seq<char>>, from: int) -> int
    decreases lines.len() - from,
{
    if from >= lines.len() || lines[from].len() == 0 {
        from
    } else {
        header_end(lines, from + 1)
    }
}

/// The body: the lines after the one that ends the headers, joined by line
/// ends. There is none where no line is left.
pub open spec fn body_of(lines: Seq<Seq<char>>) -> Option<Seq<char>> {
    let end = header_end(lines, 1);
    if end + 1 < lines.len() {
        Some(join(lines.skip(end + 1), "\r\n"@))
    } else {
        None
    }
}

/// The request that the lines of a request head and the peer's address give,
/// or `None` where they give none: without lines, with a first line that has
/// not exactly three tokens, with a method that is not recognised, or without
/// an address.
pub open spec fn parsed(lines: Seq<Seq<char>>, remote_addr: Option<Seq<char>>) -> Option<
    RequestView,
> {
    if lines.len() == 0 || tokens(lines[0]).len() != 3 {
        None
    } else {
        let request_line = tokens(lines[0]);
        match (HttpMethod::spec_from_token(request_line[0]), remote_addr) {
            (Some(method), Some(addr)) => {
                let target = split_target(request_line[1]);
                Some(
                    RequestView {
                        version: request_line[2],
                        remote_addr: addr,
                        method,
                        path: target.path,
                        hash: target.hash,
                        query_string: target.query_string,
                        params: None,
                        headers: collect_headers(lines.subrange(1, header_end(lines, 1))),
                        body: body_of(lines),
                    },
                )
            },
            _ => None,
        }
    }
}

/// The first colon followed by a space decides name and value.
pub proof fn lemma_header_parts(line: Seq<char>, i: int)
    requires
        first_separator(line, i),
    ensures
        header_parts(line) == Some((line.take(i), line.skip(i + 2))),
{
    let k = choose|k: int| first_separator(line, k);
    assert(first_separator(line, k));
    if k < i {
        assert(!separator_at(line, k));
    } else if i < k {
        assert(!separator_at(line, i));
    }
}

/// The end of the headers lies between `from` and the number of lines; the
/// lines before it are not empty, and the line at it is.
pub proof fn lemma_header_end(lines: Seq<Seq<char>>, from: int)
    requires
        0 <= from <= lines.len(),
    ensures
        from <= header_end(lines, from) <= lines.len(),
        forall|j: int| from <= j < header_end(lines, from) ==> (#[trigger] lines[j]).len() > 0,
        header_end(lines, from) < lines.len() ==> lines[header_end(lines, from)].len() == 0,
    decreases lines.len() - from,
{
    if from >= lines.len() || lines[from].len() == 0 {
    } else {
        lemma_header_end(lines, from + 1);
    }
}

/// A request line of three words with one space between them, the first a
/// recognised method, parses wherever there are lines and an address: the
/// method is the one that the first word names, the target is the second word
/// taken apart, and the version is the third word.
pub proof fn lemma_three_words_parse(
    lines: Seq<Seq<char>>,
    remote_addr: Seq<char>,
    method: Seq<char>,
    target: Seq<char>,
    version: Seq<char>,
)
    requires
        lines.len() > 0,
        lines[0] == method + seq![' '] + target + seq![' '] + version,
        is_word(method),
        is_word(target),
        is_word(version),
        HttpMethod::spec_from_token(method) is Some,
    ensures
        parsed(lines, Some(remote_addr)) matches Some(request) && Some(request.method)
            == HttpMethod::spec_from_token(method) && request.path == split_target(target).path
            && request.hash == split_target(target).hash && request.query_string == split_target(
            target,
        ).query_string && request.version == version && request.remote_addr == remote_addr
            && request.params is None,
{
    lemma_tokens_of_word(version);
    lemma_tokens_after_word(target, version);
    lemma_tokens_after_word(method, target + seq![' '] + version);
    assert(method + seq![' '] + (target + seq![' '] + version) =~= lines[0]);
    assert(tokens(lines[0]) =~= seq![method, target, version]);
}

/// A request whose first line splits into exactly three tokens, the first a
/// recognised method, parses wherever there is an address, and its fields are
/// those tokens.
pub proof fn lemma_three_tokens_parse(lines: Seq<Seq<char>>, remote_addr: Seq<char>)
    requires
        lines.len() > 0,
        tokens(lines[0]).len() == 3,
        HttpMethod::spec_from_token(tokens(lines[0])[0]) is Some,
    ensures
        parsed(lines, Some(remote_addr)) matches Some(request) && Some(request.method)
            == HttpMethod::spec_from_token(tokens(lines[0])[0]) && request.path == split_target(
            tokens(lines[0])[1],
        ).path && request.hash == split_target(tokens(lines[0])[1]).hash && request.query_string
            == split_target(tokens(lines[0])[1]).query_string && request.version == tokens(
            lines[0],
        )[2] && request.remote_addr == remote_addr && request.params is None,
{
}

/// A request whose first line has fewer or more than three tokens, or names
/// no recognised method, does not parse.
pub proof fn lemma_bad_request_line_fails(lines: Seq<Seq<char>>, remote_addr: Option<Seq<char>>)
    requires
        lines.len() > 0,
        tokens(lines[0]).len() != 3 || HttpMethod::spec_from_token(tokens(lines[0])[0]) is None,
    ensures
        parsed(lines, remote_addr) is None,
{
}

/// The headers collected from any lines have distinct names.
pub proof fn lemma_collect_headers_distinct(lines: Seq<Seq<char>>)
    ensures
        distinct_keys(collect_headers(lines)),
    decreases lines.len(),
{
    if lines.len() > 0 {
        lemma_collect_headers_distinct(lines.drop_last());
        match header_parts(lines.last()) {
            Some((name, value)) => lemma_inserted(collect_headers(lines.drop_last()), name, value),
            None => {},
        }
    }
}

/// A request target taken apart.
pub struct Target {
    pub path: String,
    pub hash: Option<String>,
    pub query_string: Option<String>,
}

impl View for Target {
    type V = TargetView;

    open spec fn view(&self) -> TargetView {
        TargetView {
            path: self.path@,
            hash: opt_view(self.hash),
            query_string: opt_view(self.query_string),
        }
    }
}

/// Takes a request target apart into path, fragment and query string.
pub fn parse_target(target: &str) -> (r: Target)
    ensures
        r@ == split_target(target@),
{
    let chars = to_chars(target);
    let n: usize = chars.len();
    assert(chars@.skip(0) =~= chars@);
    match find_char(&chars, 0, '#') {
        Some(h) => {
            let path = String::from_str(target.substring_char(0, h));
            assert(path@ =~= target@.take(h as int));
            let ghost rest = target@.skip(h + 1);
            match find_char(&chars, h + 1, '?') {
                Some(q) => {
                    let hash = String::from_str(target.substring_char(h + 1, q));
                    let query = String::from_str(target.substring_char(q + 1, n));
                    assert(hash@ =~= rest.take(q - (h + 1)));
                    assert(query@ =~= rest.skip(q - (h + 1) + 1));
                    Target { path, hash: Some(hash), query_string: Some(query) }
                },
                None => {
                    let hash = String::from_str(target.substring_char(h + 1, n));
                    assert(hash@ =~= rest);
                    Target { path, hash: Some(hash), query_string: None }
                },
            }
        },
        None => match find_char(&chars, 0, '?') {
            Some(q) => {
                let path = String::from_str(target.substring_char(0, q));
                let query = String::from_str(target.substring_char(q + 1, n));
                assert(path@ =~= target@.take(q as int));
                assert(query@ =~= target@.skip(q + 1));
                Target { path, hash: None, query_string: Some(query) }
            },
            None => Target { path: String::from_str(target), hash: None, query_string: None },
        },
    }
}

/// Name and value of a header line, or `None` for a line that is no header.
pub fn parse_header(line: &str) -> (r: Option<(String, String)>)
    ensures
        match r {
            Some((name, value)) => header_parts(line@) == Some((name@, value@)),
            None => header_parts(line@) is None,
        },
{
    let chars = to_chars(line);
    let n: usize = chars.len();
    let mut i: usize = 0;
    while i < n && i + 1 < n
        invariant
            n == chars.len(),
            i <= n,
            chars@ == line@,
            forall|j: int| 0 <= j < i ==> !separator_at(chars@, j),
        decreases n - i,
    {
        if chars[i] == ':' && chars[i + 1] == ' ' {
            proof {
                lemma_header_parts(line@, i as int);
            }
            let name = String::from_str(line.substring_char(0, i));
            let value = String::from_str(line.substring_char(i + 2, n));
            assert(name@ =~= line@.take(i as int));
            assert(value@ =~= line@.skip(i + 2));
            return Some((name, value));
        }
        i = i + 1;
    }
    assert(forall|j: int| !separator_at(line@, j));
    None
}

/// Parses a request from the lines of its head, line ends taken off, and the
/// address of the peer, `None` where it could not be resolved.
///
/// The first line is the request line. The lines after it, up to the first
/// empty line, are headers. The lines after that empty line are the body.
pub fn parse_http_request(lines: &Vec<String>, remote_addr: Option<String>) -> (r: Result<
    HttpRequest,
    (),
>)
    ensures
        match r {
            Ok(request) => parsed(views(lines@), opt_view(remote_addr)) == Some(request@),
            Err(_) => parsed(views(lines@), opt_view(remote_addr)) is None,
        },
{
    let ghost all = views(lines@);
    if lines.len() == 0 {
        return Err(());
    }
    let request_line = split_whitespace(lines[0].as_str());
    if request_line.len() != 3 {
        return Err(());
    }
    let mut headers = HeaderMap::new();
    let mut i: usize = 1;
    assert(all.subrange(1, 1) =~= Seq::<Seq<char>>::empty());
    while i < lines.len() && !lines[i].as_str().is_empty()
        invariant
            1 <= i <= lines.len(),
            all == views(lines@),
            header_end(all, i as int) == header_end(all, 1),
            headers@ == collect_headers(all.subrange(1, i as int)),
        decreases lines.len() - i,
    {
        let ghost seen = all.subrange(1, i + 1);
        assert(seen.drop_last() =~= all.subrange(1, i as int));
        assert(seen.last() == lines@[i as int]@);
        match parse_header(lines[i].as_str()) {
            Some((name, value)) => {
                headers.insert(name, value);
            },
            None => {},
        }
        i = i + 1;
    }
    proof {
        lemma_header_end(all, 1);
    }
    let body = if i < lines.len() && i + 1 < lines.len() {
        Some(join_from(lines, i + 1, "\r\n"))
    } else {
        None
    };
    let addr = match remote_addr {
        Some(a) => a,
        None => {
            return Err(());
        },
    };
    let method = match HttpMethod::from_token(request_line[0].as_str()) {
        Some(m) => m,
        None => {
            return Err(());
        },
    };
    let target = parse_target(request_line[1].as_str());
    let version = request_line[2].clone();
    let Target { path, hash, query_string } = target;
    Ok(HttpRequest::assemble(version, addr, method, path, hash, query_string, headers, body))
}

} // verus!
