//! Parsed requests, and the parameters of their query strings.
use crate::headers::{distinct_keys, has_key, inserted, key_index, lemma_inserted, lookup,
    position_of, HeaderMap};
use crate::method::HttpMethod;
use crate::text::{find_char, opt_view, split, to_chars, views};
use vstd::prelude::*;
use vstd::string::*;

verus! {

/// What a request holds, as plain values.
pub struct RequestView {
    pub version: Seq<char>,
    pub remote_addr: Seq<char>,
    pub method: HttpMethod,
    pub path: Seq<char>,
    pub hash: Option<Seq<char>>,
    pub query_string: Option<Seq<char>>,
    /// The parameters of the query string, once they were asked for.
    pub params: Option<Seq<(Seq<char>, Seq<Seq<char>>)>>,
    pub headers: Seq<(Seq<char>, Seq<char>)>,
    pub body: Option<Seq<char>>,
}

impl RequestView {
    /// This request after its parameters were asked for: a request with a
    /// query string holds the parameters of that string, and one without
    /// is as it was.
    pub open spec fn after_query(self) -> RequestView {
        match self.query_string {
            Some(q) => RequestView { params: Some(query_params(q)), ..self },
            None => self,
        }
    }
}

/// The values recorded for `key` so far, none where the key is new.
pub open spec fn values_so_far(acc: Seq<(Seq<char>, Seq<Seq<char>>)>, key: Seq<char>) -> Seq<
    Seq<char>,
> {
    match lookup(acc, key) {
        Some(values) => values,
        None => Seq::empty(),
    }
}

/// The parameters after one more piece of a query string. A piece without `=`
/// records its key with no values, also where the key had some; a piece
/// `key=value` adds the value to those of the key.
pub open spec fn record_piece(acc: Seq<(Seq<char>, Seq<Seq<char>>)>, piece: Seq<char>) -> Seq<
    (Seq<char>, Seq<Seq<char>>),
> {
    match piece.index_of_first('=') {
        None => inserted(acc, piece, Seq::empty()),
        Some(i) => inserted(acc, piece.take(i), values_so_far(acc, piece.take(i)).push(piece.skip(i + 1))),
    }
}

/// The parameters that the pieces `pieces` give, taken from left to right.
pub open spec fn collect_params(pieces: Seq<Seq<char>>) -> Seq<(Seq<char>, Seq<Seq<char>>)>
    decreases pieces.len(),
{
    if pieces.len() == 0 {
        Seq::empty()
    } else {
        record_piece(collect_params(pieces.drop_last()), pieces.last())
    }
}

/// The parameters of the query string `query`: its pieces between `&`, each
/// split at its first `=`. Nothing is percent-decoded.
pub open spec fn query_params(query: Seq<char>) -> Seq<(Seq<char>, Seq<Seq<char>>)> {
    collect_params(split(query, '&'))
}

/// The values of the parameter `key` in an optional query string.
pub open spec fn query_values(query: Option<Seq<char>>, key: Seq<char>) -> Option<Seq<Seq<char>>> {
    match query {
        Some(q) => lookup(query_params(q), key),
        None => None,
    }
}

/// No key occurs twice among collected parameters.
pub proof fn lemma_collect_params_distinct(pieces: Seq<Seq<char>>)
    ensures
        distinct_keys(collect_params(pieces)),
    decreases pieces.len(),
{
    if pieces.len() > 0 {
        let acc = collect_params(pieces.drop_last());
        lemma_collect_params_distinct(pieces.drop_last());
        let piece = pieces.last();
        match piece.index_of_first('=') {
            None => lemma_inserted(acc, piece, Seq::<Seq<char>>::empty()),
            Some(i) => lemma_inserted(
                acc,
                piece.take(i),
                values_so_far(acc, piece.take(i)).push(piece.skip(i + 1)),
            ),
        }
    }
}

/// The parameters of a query string, each key with its values in order.
#[derive(Debug)]
pub struct QueryParams {
    keys: Vec<String>,
    values: Vec<Vec<String>>,
}

impl View for QueryParams {
    type V = Seq<(Seq<char>, Seq<Seq<char>>)>;

    closed spec fn view(&self) -> Seq<(Seq<char>, Seq<Seq<char>>)> {
        Seq::new(self.keys@.len(), |i: int| (self.keys@[i]@, views(self.values@[i]@)))
    }
}

impl QueryParams {
    #[verifier::type_invariant]
    spec fn well_formed(&self) -> bool {
        &&& self.keys@.len() == self.values@.len()
        &&& forall|i: int, j: int|
            0 <= i < j < self.keys@.len() ==> (#[trigger] self.keys@[i])@ != (
            #[trigger] self.keys@[j])@
    }

    /// No parameters.
    pub fn new() -> (p: QueryParams)
        ensures
            p@ == Seq::<(Seq<char>, Seq<Seq<char>>)>::empty(),
    {
        let p = QueryParams { keys: Vec::new(), values: Vec::new() };
        assert(p@ =~= Seq::<(Seq<char>, Seq<Seq<char>>)>::empty());
        p
    }

    /// The parameters of the query string `query`.
    pub fn parse(query: &str) -> (p: QueryParams)
        ensures
            p@ == query_params(query@),
    {
        let chars = to_chars(query);
        let n: usize = chars.len();
        let mut p = QueryParams::new();
        let mut start: usize = 0;
        let ghost mut done: Seq<Seq<char>> = Seq::empty();
        assert(chars@.skip(0) =~= chars@);
        assert(done + split(chars@, '&') =~= split(chars@, '&'));
        loop
            invariant_except_break
                n == chars.len(),
                chars@ == query@,
                start <= n,
                p@ == collect_params(done),
                done + split(chars@.skip(start as int), '&') == split(chars@, '&'),
            ensures
                p@ == query_params(query@),
            decreases n - start,
        {
            let ghost rest = chars@.skip(start as int);
            let end: usize = match find_char(&chars, start, '&') {
                Some(e) => e,
                None => n,
            };
            let ghost piece = chars@.subrange(start as int, end as int);
            proof {
                if end < n {
                    assert(rest.take(end - start) =~= piece);
                    assert(rest.skip(end - start + 1) =~= chars@.skip(end + 1));
                } else {
                    assert(rest =~= piece);
                }
                assert((done + seq![piece]).drop_last() =~= done);
            }
            p.record(&chars, start, end, query);
            proof {
                done = done + seq![piece];
            }
            if end < n {
                assert(done + split(chars@.skip(end + 1), '&') =~= done.drop_last() + (seq![piece]
                    + split(chars@.skip(end + 1), '&')));
                start = end + 1;
            } else {
                assert(done =~= split(chars@, '&'));
                break ;
            }
        }
        p
    }

    /// Records the piece `source[start..end]` of a query string.
    fn record(&mut self, chars: &Vec<char>, start: usize, end: usize, source: &str)
        requires
            chars@ == source@,
            start <= end <= chars.len(),
        ensures
            final(self)@ == record_piece(old(self)@, chars@.subrange(start as int, end as int)),
    {
        let ghost piece = chars@.subrange(start as int, end as int);
        proof {
            use_type_invariant(&*self);
        }
        let mut eq: usize = start;
        while eq < end && chars[eq] != '='
            invariant
                start <= eq <= end <= chars.len(),
                forall|j: int| start <= j < eq ==> chars@[j] != '=',
            decreases end - eq,
        {
            eq = eq + 1;
        }
        let key_end: usize = eq;
        let key = String::from_str(source.substring_char(start, key_end));
        let found = position_of(&self.keys, key.as_str());
        proof {
            match found {
                Some(i) => self.lemma_index(key@, i as int),
                None => self.lemma_absent(key@),
            }
            if eq < end {
                assert(piece[eq - start] == '=');
                crate::text::lemma_first_index(piece, '=', eq - start);
                assert(piece.take(eq - start) =~= key@);
            } else {
                crate::text::lemma_no_index(piece, '=');
                assert(piece =~= key@);
            }
        }
        let mut taken = QueryParams::new();
        core::mem::swap(self, &mut taken);
        let QueryParams { keys, values } = taken;
        let mut keys = keys;
        let mut values = values;
        let ghost before = old(self)@;
        let ghost want = record_piece(before, piece);
        if eq < end {
            let value = String::from_str(source.substring_char(eq + 1, end));
            assert(value@ =~= piece.skip(eq - start + 1));
            match found {
                Some(i) => {
                    let mut list: Vec<String> = Vec::new();
                    values.set_and_swap(i, &mut list);
                    let ghost had = views(list@);
                    list.push(value);
                    assert(views(list@) =~= had.push(value@));
                    values.set(i, list);
                },
                None => {
                    let mut list: Vec<String> = Vec::new();
                    list.push(value);
                    assert(views(list@) =~= Seq::<Seq<char>>::empty().push(value@));
                    keys.push(key);
                    values.push(list);
                },
            }
        } else {
            match found {
                Some(i) => {
                    values.set(i, Vec::new());
                    assert(views(values@[i as int]@) =~= Seq::<Seq<char>>::empty());
                },
                None => {
                    keys.push(key);
                    values.push(Vec::new());
                    assert(views(values@[values@.len() - 1]@) =~= Seq::<Seq<char>>::empty());
                },
            }
        }
        assert(Seq::new(keys@.len(), |i: int| (keys@[i]@, views(values@[i]@))) =~= want);
        proof {
            assert(distinct_keys(before));
            if eq < end {
                lemma_inserted(
                    before,
                    key@,
                    values_so_far(before, key@).push(piece.skip(eq - start + 1)),
                );
            } else {
                lemma_inserted(before, key@, Seq::<Seq<char>>::empty());
            }
            assert forall|i: int, j: int| 0 <= i < j < keys@.len() implies (#[trigger] keys@[i])@
                != (#[trigger] keys@[j])@ by {
                assert(want[i].0 != want[j].0);
            }
        }
        *self = QueryParams { keys, values };
    }

    /// The values of the parameter `key`, if the query string named it.
    pub fn get(&self, key: &str) -> (r: Option<Vec<String>>)
        ensures
            match r {
                Some(values) => lookup(self@, key@) == Some(views(values@)),
                None => lookup(self@, key@) is None,
            },
    {
        proof {
            use_type_invariant(self);
        }
        match position_of(&self.keys, key) {
            Some(i) => {
                proof {
                    self.lemma_index(key@, i as int);
                }
                let list = &self.values[i];
                let mut out: Vec<String> = Vec::new();
                let mut k: usize = 0;
                while k < list.len()
                    invariant
                        k <= list.len(),
                        out@.len() == k,
                        forall|j: int| 0 <= j < k ==> out@[j]@ == list@[j]@,
                    decreases list.len() - k,
                {
                    out.push(list[k].clone());
                    k = k + 1;
                }
                assert(views(out@) =~= views(list@));
                Some(out)
            },
            None => {
                proof {
                    self.lemma_absent(key@);
                }
                None
            },
        }
    }

    proof fn lemma_index(&self, key: Seq<char>, i: int)
        requires
            self.well_formed(),
            0 <= i < self.keys@.len(),
            self.keys@[i]@ == key,
        ensures
            has_key(self@, key),
            key_index(self@, key) == i,
            distinct_keys(self@),
    {
        assert(self@[i].0 == key);
        let k = key_index(self@, key);
        if k != i {
            assert(self.keys@[k]@ == self.keys@[i]@);
        }
    }

    proof fn lemma_absent(&self, key: Seq<char>)
        requires
            self.well_formed(),
            forall|j: int| 0 <= j < self.keys@.len() ==> self.keys@[j]@ != key,
        ensures
            !has_key(self@, key),
            distinct_keys(self@),
    {
        if has_key(self@, key) {
            let k = key_index(self@, key);
            assert(self.keys@[k]@ == key);
        }
    }
}

/// A parsed request. It is made by the parser and does not change afterwards,
/// but for the parameters of its query string, which are worked out when they
/// are first asked for and kept.
#[derive(Debug)]
pub struct HttpRequest {
    version: String,
    remote_addr: String,
    method: HttpMethod,
    path: String,
    hash: Option<String>,
    query_string: Option<String>,
    params: Option<QueryParams>,
    headers: HeaderMap,
    body: Option<String>,
}

impl View for HttpRequest {
    type V = RequestView;

    closed spec fn view(&self) -> RequestView {
        RequestView {
            version: self.version@,
            remote_addr: self.remote_addr@,
            method: self.method,
            path: self.path@,
            hash: opt_view(self.hash),
            query_string: opt_view(self.query_string),
            params: match self.params {
                Some(p) => Some(p@),
                None => None,
            },
            headers: self.headers@,
            body: opt_view(self.body),
        }
    }
}

impl HttpRequest {
    /// Parameters that are kept are those of the query string.
    #[verifier::type_invariant]
    spec fn well_formed(&self) -> bool {
        match self.params {
            Some(p) => self.query_string is Some && p@ == query_params(self.query_string->0@),
            None => true,
        }
    }

    /// A request with these parts, its parameters not yet worked out.
    pub(crate) fn assemble(
        version: String,
        remote_addr: String,
        method: HttpMethod,
        path: String,
        hash: Option<String>,
        query_string: Option<String>,
        headers: HeaderMap,
        body: Option<String>,
    ) -> (r: HttpRequest)
        ensures
            r@ == (RequestView {
                version: version@,
                remote_addr: remote_addr@,
                method,
                path: path@,
                hash: opt_view(hash),
                query_string: opt_view(query_string),
                params: None,
                headers: headers@,
                body: opt_view(body),
            }),
    {
        HttpRequest {
            version,
            remote_addr,
            method,
            path,
            hash,
            query_string,
            params: None,
            headers,
            body,
        }
    }

    /// The protocol version, as the request line gave it.
    pub fn version(&self) -> (s: &String)
        ensures
            s@ == self@.version,
    {
        &self.version
    }

    /// The address of the peer.
    pub fn remote_addr(&self) -> (s: &String)
        ensures
            s@ == self@.remote_addr,
    {
        &self.remote_addr
    }

    pub fn method(&self) -> (m: HttpMethod)
        ensures
            m == self@.method,
    {
        self.method
    }

    /// The request target without fragment and query string.
    pub fn path(&self) -> (s: &String)
        ensures
            s@ == self@.path,
    {
        &self.path
    }

    /// The fragment of the request target.
    pub fn hash(&self) -> (s: Option<&String>)
        ensures
            match s {
                Some(h) => self@.hash == Some(h@),
                None => self@.hash is None,
            },
    {
        self.hash.as_ref()
    }

    /// The query string of the request target, as it was sent.
    pub fn query_string(&self) -> (s: Option<&String>)
        ensures
            match s {
                Some(q) => self@.query_string == Some(q@),
                None => self@.query_string is None,
            },
    {
        self.query_string.as_ref()
    }

    pub fn headers(&self) -> (h: &HeaderMap)
        ensures
            h@ == self@.headers,
    {
        &self.headers
    }

    pub fn body(&self) -> (s: Option<&String>)
        ensures
            match s {
                Some(b) => self@.body == Some(b@),
                None => self@.body is None,
            },
    {
        self.body.as_ref()
    }

    /// All values of the query parameter `key`, in the order of the query
    /// string, as they were sent.
    ///
    /// The parameters are worked out from the query string when they are
    /// first asked for, and kept: a request that holds them is not changed.
    /// Nothing else of the request changes either way.
    pub fn query_all(&mut self, key: String) -> (r: Option<Vec<String>>)
        ensures
            final(self)@ == old(self)@.after_query(),
            old(self)@.params is Some ==> final(self)@ == old(self)@,
            match r {
                Some(values) => query_values(old(self)@.query_string, key@) == Some(views(values@)),
                None => query_values(old(self)@.query_string, key@) is None,
            },
    {
        proof {
            use_type_invariant(&*self);
        }
        if self.query_string.is_none() {
            return None;
        }
        if self.params.is_none() {
            let parsed = match &self.query_string {
                Some(q) => QueryParams::parse(q.as_str()),
                None => QueryParams::new(),
            };
            self.params = Some(parsed);
        }
        match &self.params {
            Some(p) => p.get(key.as_str()),
            None => None,
        }
    }

    /// The first value of the query parameter `key`. The parameters are
    /// worked out and kept as [`HttpRequest::query_all`] does.
    pub fn query(&mut self, key: &str) -> (r: Option<String>)
        ensures
            final(self)@ == old(self)@.after_query(),
            old(self)@.params is Some ==> final(self)@ == old(self)@,
            match r {
                Some(value) => query_values(old(self)@.query_string, key@) matches Some(values)
                    && values.len() > 0 && values[0] == value@,
                None => query_values(old(self)@.query_string, key@) matches Some(values)
                    ==> values.len() == 0,
            },
    {
        match self.query_all(String::from_str(key)) {
            Some(values) => {
                if values.len() > 0 {
                    Some(values[0].clone())
                } else {
                    None
                }
            },
            None => None,
        }
    }
}

} // verus!
