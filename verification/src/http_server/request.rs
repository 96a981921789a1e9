//! Requests: what the transport read, what routing bound, and what the
//! headers say of cookies and of the far end.

use vstd::prelude::*;
use vstd::string::{StrSliceExecFns, StringExecFns};
use crate::errors::{ErrorCode, HttpError, HttpResult};
use super::router::Method;
use super::text::{is_visible_ascii, pairs_view, same_text, slices, split, split_on, trim, trimmed, visible_ascii};

verus! {

/// The name under which a prefix mount binds the rest of the path.
pub open spec fn rest_name() -> Seq<char> {
    "rest"@
}

/// A request: what the transport read, and the parameters that routing
/// bound. Headers are pairs of name and value in the order in which they
/// came; the transports write the names in lower case.
#[derive(Debug)]
pub struct Request {
    pub method: Method,
    pub path: String,
    pub query: String,
    pub authority: Option<String>,
    pub headers: Vec<(String, String)>,
    pub body: Option<Vec<u8>>,
    pub peer_addr: Option<String>,
    pub local_addr: Option<String>,
    pub params: Vec<(String, String)>,
}

/// A request as plain values.
pub struct RequestView {
    pub method: Method,
    pub path: Seq<char>,
    pub query: Seq<char>,
    pub authority: Option<Seq<char>>,
    pub headers: Seq<(Seq<char>, Seq<char>)>,
    pub body: Option<Seq<u8>>,
    pub peer_addr: Option<Seq<char>>,
    pub local_addr: Option<Seq<char>>,
    pub params: Seq<(Seq<char>, Seq<char>)>,
}

/// A text, or none, as plain values.
pub open spec fn text_view(text: Option<String>) -> Option<Seq<char>> {
    match text {
        Some(t) => Some(t@),
        None => None,
    }
}

/// A borrowed text, or none, as plain values.
pub open spec fn slice_view(text: Option<&str>) -> Option<Seq<char>> {
    match text {
        Some(t) => Some(t@),
        None => None,
    }
}

/// Bytes, or none, as plain values.
pub open spec fn bytes_view(bytes: Option<Vec<u8>>) -> Option<Seq<u8>> {
    match bytes {
        Some(b) => Some(b@),
        None => None,
    }
}

impl View for Request {
    type V = RequestView;

    open spec fn view(&self) -> RequestView {
        RequestView {
            method: self.method,
            path: self.path@,
            query: self.query@,
            authority: text_view(self.authority),
            headers: pairs_view(self.headers@),
            body: bytes_view(self.body),
            peer_addr: text_view(self.peer_addr),
            local_addr: text_view(self.local_addr),
            params: pairs_view(self.params@),
        }
    }
}

/// Whether the pair at `i` is the first of `pairs` with the name `key`.
pub open spec fn is_first(pairs: Seq<(Seq<char>, Seq<char>)>, key: Seq<char>, i: int) -> bool {
    &&& 0 <= i < pairs.len()
    &&& pairs[i].0 == key
    &&& forall|j: int| 0 <= j < i ==> (#[trigger] pairs[j]).0 != key
}

/// Whether the pair at `i` is the last of `pairs` with the name `key`.
pub open spec fn is_last(pairs: Seq<(Seq<char>, Seq<char>)>, key: Seq<char>, i: int) -> bool {
    &&& 0 <= i < pairs.len()
    &&& pairs[i].0 == key
    &&& forall|j: int| i < j < pairs.len() ==> (#[trigger] pairs[j]).0 != key
}

/// The value of the first pair with the name `key`, if there is one.
pub open spec fn first_value(pairs: Seq<(Seq<char>, Seq<char>)>, key: Seq<char>) -> Option<
    Seq<char>,
> {
    if exists|i: int| is_first(pairs, key, i) {
        Some(pairs[choose|i: int| is_first(pairs, key, i)].1)
    } else {
        None
    }
}

/// The value of the last pair with the name `key`, if there is one.
pub open spec fn last_value(pairs: Seq<(Seq<char>, Seq<char>)>, key: Seq<char>) -> Option<
    Seq<char>,
> {
    if exists|i: int| is_last(pairs, key, i) {
        Some(pairs[choose|i: int| is_last(pairs, key, i)].1)
    } else {
        None
    }
}

/// The first pair with a name is the only one before which none has it.
pub proof fn lemma_first_value(pairs: Seq<(Seq<char>, Seq<char>)>, key: Seq<char>, i: int)
    requires
        is_first(pairs, key, i),
    ensures
        first_value(pairs, key) == Some(pairs[i].1),
{
    let k = choose|k: int| is_first(pairs, key, k);
    if k < i {
        assert(pairs[k].0 != key);
    }
    if i < k {
        assert(pairs[i].0 != key);
    }
}

/// The last pair with a name is the only one behind which none has it.
pub proof fn lemma_last_value(pairs: Seq<(Seq<char>, Seq<char>)>, key: Seq<char>, i: int)
    requires
        is_last(pairs, key, i),
    ensures
        last_value(pairs, key) == Some(pairs[i].1),
{
    let k = choose|k: int| is_last(pairs, key, k);
    if k < i {
        assert(pairs[i].0 != key);
    }
    if i < k {
        assert(pairs[k].0 != key);
    }
}

/// The value of the first pair with the given name, if there is one.
pub fn find_first<'a>(pairs: &'a Vec<(String, String)>, key: &str) -> (value: Option<&'a str>)
    ensures
        slice_view(value) == first_value(pairs_view(pairs@), key@),
{
    let ghost all = pairs_view(pairs@);
    let mut i: usize = 0;
    while i < pairs.len()
        invariant
            i <= pairs.len(),
            all == pairs_view(pairs@),
            forall|j: int| 0 <= j < i ==> (#[trigger] all[j]).0 != key@,
        decreases pairs.len() - i,
    {
        if same_text(pairs[i].0.as_str(), key) {
            proof {
                lemma_first_value(all, key@, i as int);
            }
            return Some(pairs[i].1.as_str());
        }
        i = i + 1;
    }
    proof {
        if exists|k: int| is_first(all, key@, k) {
            let k = choose|k: int| is_first(all, key@, k);
            assert(all[k].0 != key@);
        }
    }
    None
}

/// The value of the last pair with the given name, if there is one.
pub fn find_last<'a>(pairs: &'a Vec<(String, String)>, key: &str) -> (value: Option<&'a str>)
    ensures
        slice_view(value) == last_value(pairs_view(pairs@), key@),
{
    let ghost all = pairs_view(pairs@);
    let mut i: usize = pairs.len();
    while i > 0
        invariant
            i <= pairs.len(),
            all == pairs_view(pairs@),
            forall|j: int| i <= j < pairs.len() ==> (#[trigger] all[j]).0 != key@,
        decreases i,
    {
        i = i - 1;
        if same_text(pairs[i].0.as_str(), key) {
            proof {
                lemma_last_value(all, key@, i as int);
            }
            return Some(pairs[i].1.as_str());
        }
    }
    proof {
        if exists|k: int| is_last(all, key@, k) {
            let k = choose|k: int| is_last(all, key@, k);
            assert(all[k].0 != key@);
        }
    }
    None
}

/// A header as a text: its value where that is made of printable ASCII,
/// and nothing where it holds anything else.
pub open spec fn as_text(value: Option<Seq<char>>) -> Option<Seq<char>> {
    match value {
        Some(v) => if visible_ascii(v) {
            Some(v)
        } else {
            None
        },
        None => None,
    }
}

/// Reads a header as a text: see `as_text`.
pub fn to_text<'a>(value: Option<&'a str>) -> (text: Option<&'a str>)
    ensures
        slice_view(text) == as_text(slice_view(value)),
        text matches Some(t) ==> t.is_ascii(),
{
    match value {
        Some(v) => if is_visible_ascii(v) {
            Some(v)
        } else {
            None
        },
        None => None,
    }
}

/// The cookie that a piece of a cookie header holds: where the piece has
/// exactly one `=`, the texts before and behind it, without the blanks
/// around them.
pub open spec fn cookie_pair(piece: Seq<char>) -> Option<(Seq<char>, Seq<char>)> {
    let halves = split_on(piece, '=');
    if halves.len() == 2 {
        Some((trimmed(halves[0]), trimmed(halves[1])))
    } else {
        None
    }
}

/// The cookies that the pieces of a cookie header hold, in their order; a
/// piece that holds none is left out.
pub open spec fn cookie_pairs(pieces: Seq<Seq<char>>) -> Seq<(Seq<char>, Seq<char>)>
    decreases pieces.len(),
{
    if pieces.len() == 0 {
        Seq::empty()
    } else {
        match cookie_pair(pieces.last()) {
            Some(pair) => cookie_pairs(pieces.drop_last()).push(pair),
            None => cookie_pairs(pieces.drop_last()),
        }
    }
}

/// The value of a cookie in the text of a cookie header: the header is cut
/// at each `;`, and the first cookie of the name decides.
pub open spec fn cookie_in(text: Seq<char>, name: Seq<char>) -> Option<Seq<char>> {
    first_value(cookie_pairs(split_on(text, ';')), name)
}

/// The value of a cookie of a request with the given headers: that in the
/// last header `cookie`, read as a text.
pub open spec fn cookie_of(headers: Seq<(Seq<char>, Seq<char>)>, name: Seq<char>) -> Option<
    Seq<char>,
> {
    match as_text(last_value(headers, "cookie"@)) {
        Some(text) => cookie_in(text, name),
        None => None,
    }
}

/// Finds a cookie in the text of a cookie header: see `cookie_in`.
pub fn find_cookie(text: &str, name: &str) -> (value: Option<String>)
    requires
        text.is_ascii(),
    ensures
        text_view(value) == cookie_in(text@, name@),
{
    assert(59u8 as char == ';');
    assert(61u8 as char == '=');
    let pieces = split(text, 59);
    let ghost all = split_on(text@, ';');
    let mut k: usize = 0;
    assert(all.take(0) =~= Seq::<Seq<char>>::empty());
    while k < pieces.len()
        invariant
            k <= pieces@.len(),
            all == slices(pieces@),
            all == split_on(text@, ';'),
            61u8 as char == '=',
            forall|i: int| 0 <= i < pieces@.len() ==> (#[trigger] pieces@[i]).is_ascii(),
            forall|j: int|
                0 <= j < cookie_pairs(all.take(k as int)).len() ==> (#[trigger] cookie_pairs(
                    all.take(k as int),
                )[j]).0 != name@,
        decreases pieces@.len() - k,
    {
        let piece = pieces[k];
        let ghost before = cookie_pairs(all.take(k as int));
        proof {
            assert(piece@ == all[k as int]);
            assert(pieces@[k as int].is_ascii());
            assert(all.take(k + 1).drop_last() =~= all.take(k as int));
            assert(all.take(k + 1).last() == all[k as int]);
            lemma_cookie_pairs_grow(all, k + 1);
        }
        let halves = split(piece, 61);
        if halves.len() == 2 {
            assert(halves@[0].is_ascii());
            assert(halves@[1].is_ascii());
            assert(slices(halves@)[0] == halves@[0]@);
            assert(slices(halves@)[1] == halves@[1]@);
            let key = trim(halves[0]);
            let found = trim(halves[1]);
            proof {
                assert(cookie_pair(all[k as int]) == Some((key@, found@)));
                assert(cookie_pairs(all.take(k + 1)) == before.push((key@, found@)));
            }
            if same_text(key, name) {
                proof {
                    let at = before.len() as int;
                    let now = cookie_pairs(all.take(k + 1));
                    assert(now[at] == (key@, found@));
                    assert(cookie_pairs(all)[at] == now[at]);
                    assert forall|j: int| 0 <= j < at implies (#[trigger] cookie_pairs(
                        all,
                    )[j]).0 != name@ by {
                        assert(now[j] == before[j]);
                        assert(cookie_pairs(all)[j] == now[j]);
                        assert(before[j].0 != name@);
                    }
                    assert(is_first(cookie_pairs(all), name@, at));
                    lemma_first_value(cookie_pairs(all), name@, at);
                }
                return Some(String::from_str(found));
            }
        } else {
            assert(cookie_pair(all[k as int]) is None);
            assert(cookie_pairs(all.take(k + 1)) == before);
        }
        k = k + 1;
    }
    proof {
        assert(all.take(k as int) =~= all);
        let pairs = cookie_pairs(all);
        if exists|c: int| is_first(pairs, name@, c) {
            let c = choose|c: int| is_first(pairs, name@, c);
            assert(pairs[c].0 != name@);
        }
    }
    None
}

/// The cookies of the first pieces of a header are the first cookies of
/// the whole header.
pub proof fn lemma_cookie_pairs_grow(pieces: Seq<Seq<char>>, k: int)
    requires
        0 <= k <= pieces.len(),
    ensures
        cookie_pairs(pieces.take(k)).len() <= cookie_pairs(pieces).len(),
        forall|j: int|
            0 <= j < cookie_pairs(pieces.take(k)).len() ==> cookie_pairs(pieces)[j]
                == #[trigger] cookie_pairs(pieces.take(k))[j],
    decreases pieces.len(),
{
    if k == pieces.len() {
        assert(pieces.take(k) =~= pieces);
    } else {
        assert(pieces.drop_last().take(k) =~= pieces.take(k));
        lemma_cookie_pairs_grow(pieces.drop_last(), k);
    }
}

/// Whether a text begins with another.
pub open spec fn begins_with(text: Seq<char>, start: Seq<char>) -> bool {
    start.len() <= text.len() && text.take(start.len() as int) == start
}

/// Whether an ASCII text begins with another.
pub fn has_prefix(text: &str, start: &str) -> (yes: bool)
    requires
        text.is_ascii(),
        start.is_ascii(),
    ensures
        yes == begins_with(text@, start@),
{
    let n = start.unicode_len();
    if n > text.unicode_len() {
        return false;
    }
    let mut i: usize = 0;
    while i < n
        invariant
            i <= n,
            n == start@.len(),
            n <= text@.len(),
            text.is_ascii(),
            start.is_ascii(),
            forall|k: int| 0 <= k < i ==> text@[k] == start@[k],
        decreases n - i,
    {
        if text.get_ascii(i) != start.get_ascii(i) {
            assert(text@.take(n as int)[i as int] != start@[i as int]);
            return false;
        }
        i = i + 1;
    }
    assert(text@.take(n as int) =~= start@);
    true
}

/// Whether the piece at `k` of a `forwarded` header is the first that,
/// without the blanks around it, begins with `key`.
pub open spec fn is_first_with(pieces: Seq<Seq<char>>, key: Seq<char>, k: int) -> bool {
    &&& 0 <= k < pieces.len()
    &&& begins_with(trimmed(pieces[k]), key)
    &&& forall|j: int| 0 <= j < k ==> !begins_with(trimmed(#[trigger] pieces[j]), key)
}

/// What a `forwarded` header says under a key such as `for=`: the header
/// is cut at each `;`, and of the first piece that, without the blanks
/// around it, begins with the key, what stands behind the key.
pub open spec fn forwarded_value(text: Seq<char>, key: Seq<char>) -> Option<Seq<char>> {
    let pieces = split_on(text, ';');
    if exists|k: int| is_first_with(pieces, key, k) {
        let k = choose|k: int| is_first_with(pieces, key, k);
        Some(trimmed(pieces[k]).skip(key.len() as int))
    } else {
        None
    }
}

/// Reads a `forwarded` header under a key: see `forwarded_value`.
pub fn find_forwarded(text: &str, key: &str) -> (value: Option<String>)
    requires
        text.is_ascii(),
        key.is_ascii(),
    ensures
        text_view(value) == forwarded_value(text@, key@),
{
    assert(59u8 as char == ';');
    let pieces = split(text, 59);
    let ghost all = split_on(text@, ';');
    let key_len = key.unicode_len();
    let mut k: usize = 0;
    while k < pieces.len()
        invariant
            k <= pieces@.len(),
            all == slices(pieces@),
            all == split_on(text@, ';'),
            key.is_ascii(),
            key_len == key@.len(),
            forall|i: int| 0 <= i < pieces@.len() ==> (#[trigger] pieces@[i]).is_ascii(),
            forall|j: int| 0 <= j < k ==> !begins_with(trimmed(#[trigger] all[j]), key@),
        decreases pieces@.len() - k,
    {
        assert(pieces@[k as int].is_ascii());
        assert(pieces@[k as int]@ == all[k as int]);
        let piece = trim(pieces[k]);
        if has_prefix(piece, key) {
            let behind = piece.substring_ascii(key_len, piece.unicode_len());
            proof {
                assert(is_first_with(all, key@, k as int));
                let c = choose|c: int| is_first_with(all, key@, c);
                if c < k {
                    assert(!begins_with(trimmed(all[c]), key@));
                }
                if k < c {
                    assert(!begins_with(trimmed(all[k as int]), key@));
                }
                assert(behind@ =~= piece@.skip(key_len as int));
            }
            return Some(String::from_str(behind));
        }
        k = k + 1;
    }
    proof {
        if exists|c: int| is_first_with(all, key@, c) {
            let c = choose|c: int| is_first_with(all, key@, c);
            assert(!begins_with(trimmed(all[c]), key@));
        }
    }
    None
}

/// The first entry of a list with commas, without the blanks around it.
pub open spec fn first_listed(text: Seq<char>) -> Seq<char> {
    trimmed(split_on(text, ',')[0])
}

/// Reads the first entry of a list with commas: see `first_listed`.
pub fn find_first_listed(text: &str) -> (entry: String)
    requires
        text.is_ascii(),
    ensures
        entry@ == first_listed(text@),
{
    assert(44u8 as char == ',');
    proof {
        super::text::lemma_split_nonempty(text@, ',');
    }
    let pieces = split(text, 44);
    assert(pieces@[0].is_ascii());
    assert(slices(pieces@)[0] == pieces@[0]@);
    String::from_str(trim(pieces[0]))
}

/// The far end of a request, as its headers and its transport tell it:
/// what the header `forwarded` says under `for=`; failing that, the first
/// entry of the header `x-forwarded-for`; failing that, the address of the
/// peer. Of each header the first value counts, read as a text.
pub open spec fn remote_of(req: RequestView) -> Option<Seq<char>> {
    let forwarded = match as_text(first_value(req.headers, "forwarded"@)) {
        Some(text) => forwarded_value(text, "for="@),
        None => None,
    };
    if forwarded is Some {
        forwarded
    } else {
        match as_text(first_value(req.headers, "x-forwarded-for"@)) {
            Some(text) => Some(first_listed(text)),
            None => req.peer_addr,
        }
    }
}

/// The host that a request was sent to, as its headers tell it: what the
/// header `forwarded` says under `host=`; failing that, the first entry of
/// the header `x-forwarded-host`; failing that, the header `host`; failing
/// that, the authority of the address that was asked for. Of each header
/// the first value counts, read as a text.
pub open spec fn host_of(req: RequestView) -> Option<Seq<char>> {
    let forwarded = match as_text(first_value(req.headers, "forwarded"@)) {
        Some(text) => forwarded_value(text, "host="@),
        None => None,
    };
    if forwarded is Some {
        forwarded
    } else {
        match as_text(first_value(req.headers, "x-forwarded-host"@)) {
            Some(text) => Some(first_listed(text)),
            None => match as_text(first_value(req.headers, "host"@)) {
                Some(text) => Some(text),
                None => req.authority,
            },
        }
    }
}

/// A copy of a text, or none.
fn owned(text: &Option<String>) -> (copy: Option<String>)
    ensures
        text_view(copy) == text_view(*text),
{
    match text {
        Some(t) => Some(String::from_str(t.as_str())),
        None => None,
    }
}

impl Request {
    /// A request for a path under a method, with nothing else in it.
    pub fn new(method: Method, path: &str) -> (request: Self)
        ensures
            request@ == (RequestView {
                method,
                path: path@,
                query: Seq::empty(),
                authority: None,
                headers: Seq::empty(),
                body: None,
                peer_addr: None,
                local_addr: None,
                params: Seq::empty(),
            }),
    {
        let request = Request {
            method,
            path: String::from_str(path),
            query: String::new(),
            authority: None,
            headers: Vec::new(),
            body: None,
            peer_addr: None,
            local_addr: None,
            params: Vec::new(),
        };
        assert(request@.headers =~= Seq::empty());
        assert(request@.params =~= Seq::empty());
        request
    }

    /// The path of the request.
    pub fn path(&self) -> (path: &str)
        ensures
            path@ == self@.path,
    {
        self.path.as_str()
    }

    /// The method of the request.
    pub fn method(&self) -> (method: Method)
        ensures
            method == self@.method,
    {
        self.method
    }

    /// The address of the peer, as the transport gave it.
    pub fn peer_addr(&self) -> (addr: Option<&str>)
        ensures
            slice_view(addr) == self@.peer_addr,
    {
        match &self.peer_addr {
            Some(a) => Some(a.as_str()),
            None => None,
        }
    }

    /// The address on which the request came in, as the transport gave it.
    pub fn local_addr(&self) -> (addr: Option<&str>)
        ensures
            slice_view(addr) == self@.local_addr,
    {
        match &self.local_addr {
            Some(a) => Some(a.as_str()),
            None => None,
        }
    }

    /// The far end of the request: see `remote_of`.
    pub fn remote(&self) -> (remote: Option<String>)
        ensures
            text_view(remote) == remote_of(self@),
    {
        proof {
            reveal_strlit("for=");
        }
        let forwarded = match to_text(find_first(&self.headers, "forwarded")) {
            Some(text) => find_forwarded(text, "for="),
            None => None,
        };
        if forwarded.is_some() {
            return forwarded;
        }
        match to_text(find_first(&self.headers, "x-forwarded-for")) {
            Some(text) => Some(find_first_listed(text)),
            None => owned(&self.peer_addr),
        }
    }

    /// The host that the request was sent to: see `host_of`.
    pub fn host(&self) -> (host: Option<String>)
        ensures
            text_view(host) == host_of(self@),
    {
        proof {
            reveal_strlit("host=");
        }
        let forwarded = match to_text(find_first(&self.headers, "forwarded")) {
            Some(text) => find_forwarded(text, "host="),
            None => None,
        };
        if forwarded.is_some() {
            return forwarded;
        }
        match to_text(find_first(&self.headers, "x-forwarded-host")) {
            Some(text) => Some(find_first_listed(text)),
            None => match to_text(find_first(&self.headers, "host")) {
                Some(text) => Some(String::from_str(text)),
                None => owned(&self.authority),
            },
        }
    }

    /// The content type that the request states: the first header
    /// `content-type`, if there is one.
    pub fn content_type(&self) -> (value: Option<&str>)
        ensures
            slice_view(value) == first_value(self@.headers, "content-type"@),
    {
        self.header("content-type")
    }

    /// The value of the first header with this name, if there is one.
    pub fn header(&self, key: &str) -> (value: Option<&str>)
        ensures
            slice_view(value) == first_value(self@.headers, key@),
    {
        find_first(&self.headers, key)
    }

    /// The value that routing bound to a parameter: that of the first pair
    /// with this name. Where no pair has the name, the error `InvalidParam`.
    pub fn param(&self, key: &str) -> (value: HttpResult<&str>)
        ensures
            match value {
                Ok(v) => first_value(self@.params, key@) == Some(v@),
                Err(e) => first_value(self@.params, key@) is None && e.code
                    == ErrorCode::InvalidParam,
            },
    {
        match find_first(&self.params, key) {
            Some(v) => Ok(v),
            None => Err(HttpError::new(ErrorCode::InvalidParam, "param not found")),
        }
    }

    /// The value of a cookie that the request carries: see `cookie_of`.
    pub fn get_cookie(&self, cookie_name: &str) -> (value: Option<String>)
        ensures
            text_view(value) == cookie_of(self@.headers, cookie_name@),
    {
        match to_text(find_last(&self.headers, "cookie")) {
            Some(text) => find_cookie(text, cookie_name),
            None => None,
        }
    }

    /// Takes the body out of the request. A request whose body was taken
    /// before, or that never had one, gives the error `InvalidData`.
    pub fn body_bytes(&mut self) -> (body: HttpResult<Vec<u8>>)
        ensures
            final(self)@ == (RequestView { body: None, ..old(self)@ }),
            match body {
                Ok(bytes) => old(self)@.body == Some(bytes@),
                Err(e) => old(self)@.body is None && e.code == ErrorCode::InvalidData,
            },
    {
        match self.body.take() {
            Some(bytes) => Ok(bytes),
            None => Err(HttpError::new(ErrorCode::InvalidData, "no body")),
        }
    }
}

} // verus!
