//! The HTTP bridge: requests are numbered and held until a reply with
//! their number comes back; replies arrive as lines `<id> <body>`.
use std::collections::HashMap;
use std::sync::atomic::{AtomicBool, Ordering};
use std::sync::mpsc::Sender;
use std::sync::Arc;
use vstd::prelude::*;

use crate::text::{
    is_word, join_words, lemma_decimal_is_word, lemma_split_join, lemma_words_concat,
    lemma_words_trailing_ws, words,
};
use crate::text::{
    chars_of, decimal, is_ws, lemma_decimal_reads_back, lemma_parse_decimal, parse_u64_in,
    parse_u64_spec, push_char, push_decimal, push_str, string_of, trim, trim_bounds, trim_end,
    trim_start,
};

verus! {

/// A request as the bridge passes it on.
pub struct RequestMessage {
    pub id: u64,
    pub method: String,
    pub path: String,
    pub body: String,
}

/// `[id]method:path {body}`: how a request is shown.
pub open spec fn request_text(id: u64, method: Seq<char>, path: Seq<char>, body: Seq<char>) -> Seq<char> {
    seq!['['] + decimal(id as nat) + seq![']'] + method + seq![':'] + path + seq![' ', '{'] + body
        + seq!['}']
}

/// `REQUEST id method path body` and a line end: how a request is
/// announced on standard output.
pub open spec fn request_line_text(id: u64, method: Seq<char>, path: Seq<char>, body: Seq<char>) -> Seq<char> {
    "REQUEST "@ + decimal(id as nat) + seq![' '] + method + seq![' '] + path + seq![' '] + body
        + seq!['\n']
}

impl RequestMessage {
    /// The request shown as `[id]method:path {body}`.
    pub fn to_text(&self) -> (s: String)
        ensures
            s@ == request_text(self.id, self.method@, self.path@, self.body@),
    {
        let mut s = String::new();
        push_char(&mut s, '[');
        push_decimal(&mut s, self.id);
        push_char(&mut s, ']');
        push_str(&mut s, self.method.as_str());
        push_char(&mut s, ':');
        push_str(&mut s, self.path.as_str());
        push_char(&mut s, ' ');
        push_char(&mut s, '{');
        push_str(&mut s, self.body.as_str());
        push_char(&mut s, '}');
        assert(s@ =~= request_text(self.id, self.method@, self.path@, self.body@));
        s
    }

    /// The line that announces the request on standard output.
    pub fn request_line(&self) -> (s: String)
        ensures
            s@ == request_line_text(self.id, self.method@, self.path@, self.body@),
    {
        let mut s = "REQUEST ".to_owned();
        push_decimal(&mut s, self.id);
        push_char(&mut s, ' ');
        push_str(&mut s, self.method.as_str());
        push_char(&mut s, ' ');
        push_str(&mut s, self.path.as_str());
        push_char(&mut s, ' ');
        push_str(&mut s, self.body.as_str());
        push_char(&mut s, '\n');
        assert(s@ =~= request_line_text(self.id, self.method@, self.path@, self.body@));
        s
    }
}

/// The announcement of a request carries its fields in order: read from
/// its end, it is a line end after the body, then a space and the path, a
/// space and the method, and before them `REQUEST ` and the number, for
/// every request, an empty body included. When the method and the path are
/// words, the line's words are `REQUEST`, the number, the method, the path
/// and then the words of the body.
pub proof fn lemma_request_line_fields(id: u64, method: Seq<char>, path: Seq<char>, body: Seq<char>)
    ensures
        ({
            let l = request_line_text(id, method, path, body);
            let h = l.take(l.len() - body.len() - 2);
            let g = h.take(h.len() - path.len() - 1);
            &&& l.len() >= body.len() + 2
            &&& l.skip(l.len() - body.len() - 2) == seq![' '] + body + seq!['\n']
            &&& h.len() >= path.len() + 1
            &&& h.skip(h.len() - path.len() - 1) == seq![' '] + path
            &&& g.len() >= method.len() + 1
            &&& g.skip(g.len() - method.len() - 1) == seq![' '] + method
            &&& g.take(g.len() - method.len() - 1) == "REQUEST "@ + decimal(id as nat)
        }),
        is_word(method) && is_word(path) ==> words(request_line_text(id, method, path, body))
            == seq!["REQUEST"@, decimal(id as nat), method, path] + words(body),
{
    broadcast use vstd::string::group_string_axioms;

    reveal_strlit("REQUEST ");
    reveal_strlit("REQUEST");
    let d = decimal(id as nat);
    let sp = seq![' '];
    let l = request_line_text(id, method, path, body);
    let g0 = "REQUEST "@ + d;
    let h0 = g0 + sp + method;
    let l0 = h0 + sp + path;
    assert(l =~= l0 + sp + body + seq!['\n']);
    let h = l.take(l.len() - body.len() - 2);
    assert(h =~= l0);
    assert(l.skip(l.len() - body.len() - 2) =~= sp + body + seq!['\n']);
    let g = h.take(h.len() - path.len() - 1);
    assert(g =~= h0);
    assert(h.skip(h.len() - path.len() - 1) =~= sp + path);
    assert(g.take(g.len() - method.len() - 1) =~= g0);
    assert(g.skip(g.len() - method.len() - 1) =~= sp + method);
    if is_word(method) && is_word(path) {
        let r = "REQUEST"@;
        lemma_decimal_is_word(id as nat);
        assert(is_word(r)) by {
            assert forall|i: int| 0 <= i < r.len() implies !is_ws(#[trigger] r[i]) by {}
        }
        let parts = seq![r, d, method, path];
        assert forall|i: int| 0 <= i < parts.len() implies is_word(#[trigger] parts[i]) by {}
        let p1 = seq![r];
        let p2 = p1.push(d);
        let p3 = p2.push(method);
        assert(p2.drop_last() =~= p1);
        assert(p3.drop_last() =~= p2);
        assert(parts.drop_last() =~= p3);
        assert(join_words(p1) == r);
        assert(join_words(p2) == r + sp + d);
        assert(join_words(p3) == r + sp + d + sp + method);
        assert(join_words(parts) == join_words(p3) + sp + path);
        assert(join_words(parts) =~= r + sp + d + sp + method + sp + path);
        assert("REQUEST "@ =~= r + sp);
        lemma_split_join(parts);
        lemma_words_trailing_ws(body, '\n');
        lemma_words_concat(join_words(parts), ' ', body + seq!['\n']);
        assert(l =~= join_words(parts) + seq![' '] + (body + seq!['\n']));
    }
}

/// The position of the first `c` in `s`, or the length of `s` when there
/// is none.
pub open spec fn first_index(s: Seq<char>, c: char) -> nat
    decreases s.len(),
{
    if s.len() == 0 {
        0
    } else if s[0] == c {
        0
    } else {
        1 + first_index(s.drop_first(), c)
    }
}

/// `first_index` is the one position before which `c` does not occur and
/// at which it does (or the end).
proof fn lemma_first_index(s: Seq<char>, c: char, k: int)
    requires
        0 <= k <= s.len(),
        k < s.len() ==> s[k] == c,
        forall|j: int| 0 <= j < k ==> s[j] != c,
    ensures
        first_index(s, c) == k,
    decreases s.len(),
{
    if s.len() > 0 && s[0] != c {
        let t = s.drop_first();
        assert forall|j: int| 0 <= j < k - 1 implies t[j] != c by {
            assert(t[j] == s[j + 1]);
        }
        lemma_first_index(t, c, k - 1);
    }
}

/// What a reply line means: after trimming, a number, one space and the
/// reply body. Lines without a space, or whose first part is not a
/// number, mean nothing.
pub open spec fn reply_spec(line: Seq<char>) -> Option<(u64, Seq<char>)> {
    let t = trim(line);
    let k = first_index(t, ' ') as int;
    if k < t.len() {
        match parse_u64_spec(t.take(k)) {
            Some(id) => Some((id, t.skip(k + 1))),
            None => None,
        }
    } else {
        None
    }
}

/// A reply body that trimming leaves whole: not empty, and without
/// whitespace at either end.
pub open spec fn is_trimmed(s: Seq<char>) -> bool {
    s.len() > 0 && !is_ws(s[0]) && !is_ws(s.last())
}

/// A reply written as the request's number in decimal, a space and the
/// body is read as that body for that request.
pub proof fn lemma_reply_line(id: u64, body: Seq<char>)
    requires
        is_trimmed(body),
    ensures
        reply_spec(decimal(id as nat) + seq![' '] + body) == Some((id, body)),
{
    let d = decimal(id as nat);
    let line = d + seq![' '] + body;
    lemma_decimal_reads_back(id as nat);
    lemma_parse_decimal(id);
    assert(line[0] == d[0]);
    assert(crate::text::is_digit(d[0]));
    assert(trim_start(line) == line);
    assert(line.last() == body.last());
    assert(trim_end(line) == line);
    assert(trim(line) == line);
    assert forall|j: int| 0 <= j < d.len() implies line[j] != ' ' by {
        assert(line[j] == d[j]);
        assert(crate::text::is_digit(d[j]));
    }
    assert(line[d.len() as int] == ' ');
    lemma_first_index(line, ' ', d.len() as int);
    assert(line.take(d.len() as int) =~= d);
    assert(line.skip(d.len() as int + 1) =~= body);
}

/// How a request is shown carries its fields in order, for every request,
/// an empty body included: `[`, the number (which reads back), `]`, the
/// method, `:`, the path, ` {`, the body and `}`. When the method holds no
/// `:`, the method is exactly the text between the `]` and the first `:`.
pub proof fn lemma_request_text_fields(id: u64, method: Seq<char>, path: Seq<char>, body: Seq<char>)
    ensures
        ({
            let t = request_text(id, method, path, body);
            let h = t.take(t.len() - body.len() - 3);
            let g = h.take(h.len() - path.len() - 1);
            let r = t.skip(1);
            let k = first_index(r, ']') as int;
            let u = r.skip(k + 1);
            &&& t.len() >= body.len() + 3
            &&& t[0] == '['
            &&& t.skip(t.len() - body.len() - 3) == seq![' ', '{'] + body + seq!['}']
            &&& h.len() >= path.len() + 1
            &&& h.skip(h.len() - path.len() - 1) == seq![':'] + path
            &&& g.len() >= method.len()
            &&& g.skip(g.len() - method.len()) == method
            &&& g.take(g.len() - method.len()) == seq!['['] + decimal(id as nat) + seq![']']
            &&& k < r.len()
            &&& parse_u64_spec(r.take(k)) == Some(id)
            &&& (forall|i: int| 0 <= i < method.len() ==> method[i] != ':') ==> ({
                let j = first_index(u, ':') as int;
                &&& j < u.len()
                &&& u.take(j) == method
                &&& u.skip(j + 1) == path + seq![' ', '{'] + body + seq!['}']
            })
        }),
{
    let d = decimal(id as nat);
    let t = request_text(id, method, path, body);
    let g0 = seq!['['] + d + seq![']'] + method;
    let h0 = g0 + seq![':'] + path;
    assert(t =~= h0 + seq![' ', '{'] + body + seq!['}']);
    let h = t.take(t.len() - body.len() - 3);
    assert(h =~= h0);
    assert(t.skip(t.len() - body.len() - 3) =~= seq![' ', '{'] + body + seq!['}']);
    assert(h.skip(h.len() - path.len() - 1) =~= seq![':'] + path);
    let g = h.take(h.len() - path.len() - 1);
    assert(g =~= g0);
    assert(g.skip(g.len() - method.len()) =~= method);
    assert(g.take(g.len() - method.len()) =~= seq!['['] + d + seq![']']);
    lemma_decimal_reads_back(id as nat);
    lemma_parse_decimal(id);
    let r = t.skip(1);
    assert(r =~= d + seq![']'] + method + seq![':'] + path + seq![' ', '{'] + body + seq!['}']);
    assert forall|j: int| 0 <= j < d.len() implies r[j] != ']' by {
        assert(r[j] == d[j]);
        assert(crate::text::is_digit(d[j]));
    }
    assert(r[d.len() as int] == ']');
    lemma_first_index(r, ']', d.len() as int);
    assert(r.take(d.len() as int) =~= d);
    let u = r.skip(d.len() as int + 1);
    assert(u =~= method + seq![':'] + path + seq![' ', '{'] + body + seq!['}']);
    if forall|i: int| 0 <= i < method.len() ==> method[i] != ':' {
        assert forall|j: int| 0 <= j < method.len() implies u[j] != ':' by {
            assert(u[j] == method[j]);
        }
        assert(u[method.len() as int] == ':');
        lemma_first_index(u, ':', method.len() as int);
        assert(u.take(method.len() as int) =~= method);
        assert(u.skip(method.len() as int + 1) =~= path + seq![' ', '{'] + body + seq!['}']);
    }
}

/// Reads a reply line `<id> <body>`.
pub fn parse_reply(line: &str) -> (r: Option<(u64, String)>)
    ensures
        match (r, reply_spec(line@)) {
            (Some((id, body)), Some((sid, sbody))) => id == sid && body@ == sbody,
            (None, None) => true,
            _ => false,
        },
{
    let v = chars_of(line);
    let (a, b) = trim_bounds(&v);
    let ghost t = trim(line@);
    let mut k = a;
    while k < b && v[k] != ' '
        invariant
            a <= k <= b <= v@.len(),
            t == v@.subrange(a as int, b as int),
            forall|j: int| 0 <= j < k - a ==> t[j] != ' ',
        decreases b - k,
    {
        k = k + 1;
    }
    proof {
        lemma_first_index(t, ' ', k - a);
    }
    if k == b {
        return None;
    }
    assert(t.take(k - a) =~= v@.subrange(a as int, k as int));
    match parse_u64_in(&v, a, k) {
        Some(id) => {
            let body = string_of(&v, k + 1, b);
            assert(t.skip(k - a + 1) =~= v@.subrange(k + 1, b as int));
            Some((id, body))
        },
        None => None,
    }
}

/// Requests waiting for their reply, by number.
pub struct PendingRequests<R> {
    pending: HashMap<u64, R>,
}

/// Taking the request with number `id` out of a table: what comes out,
/// and what stays.
pub open spec fn take_outcome<R>(m: Map<u64, R>, id: u64) -> (Option<R>, Map<u64, R>) {
    if m.contains_key(id) {
        (Some(m[id]), m.remove(id))
    } else {
        (None, m)
    }
}

impl<R> View for PendingRequests<R> {
    type V = Map<u64, R>;

    closed spec fn view(&self) -> Map<u64, R> {
        self.pending@
    }
}

impl<R> PendingRequests<R> {
    /// An empty table.
    pub fn new() -> (t: Self)
        ensures
            t@ == Map::<u64, R>::empty(),
    {
        PendingRequests { pending: HashMap::new() }
    }

    /// Holds `rq` under number `id`, giving back what was held there.
    pub fn insert(&mut self, id: u64, rq: R) -> (prev: Option<R>)
        ensures
            final(self)@ == old(self)@.insert(id, rq),
            prev == (if old(self)@.contains_key(id) {
                Some(old(self)@[id])
            } else {
                None
            }),
    {
        broadcast use vstd::std_specs::hash::group_hash_axioms;

        self.pending.insert(id, rq)
    }

    /// Takes out the request with number `id`, if one is held.
    pub fn take(&mut self, id: u64) -> (r: Option<R>)
        ensures
            (r, final(self)@) == take_outcome(old(self)@, id),
    {
        broadcast use vstd::std_specs::hash::group_hash_axioms;

        self.pending.remove(&id)
    }

    /// Whether a request with number `id` is held.
    pub fn contains(&self, id: u64) -> (r: bool)
        ensures
            r == self@.contains_key(id),
    {
        broadcast use vstd::std_specs::hash::group_hash_axioms;

        self.pending.contains_key(&id)
    }
}

/// A reply reaches the request held under its number, once: taking that
/// number right after holding a request there gives the request back and
/// leaves the rest of the table as it was; taking it again gives nothing.
pub proof fn lemma_reply_reaches_request<R>(m: Map<u64, R>, id: u64, rq: R)
    ensures
        take_outcome(m.insert(id, rq), id) == (Some(rq), m.remove(id)),
        take_outcome(m.remove(id), id) == (None::<R>, m.remove(id)),
{
    assert(m.insert(id, rq).remove(id) =~= m.remove(id));
}

/// A reply whose number no request is held under changes nothing.
pub proof fn lemma_unknown_reply_ignored<R>(m: Map<u64, R>, id: u64)
    requires
        !m.contains_key(id),
    ensures
        take_outcome(m, id) == (None::<R>, m),
{
}

/// Numbers for requests, counting up from 1.
pub struct RequestIds {
    next: u64,
}

impl View for RequestIds {
    type V = u64;

    closed spec fn view(&self) -> u64 {
        self.next
    }
}

impl RequestIds {
    /// A counter whose first number is 1.
    pub fn new() -> (c: Self)
        ensures
            c@ == 1,
    {
        RequestIds { next: 1 }
    }

    /// The number the next request gets.
    pub fn peek(&self) -> (n: u64)
        ensures
            n == self@,
    {
        self.next
    }

    /// Hands out the next number.
    pub fn next_id(&mut self) -> (id: u64)
        requires
            old(self)@ < u64::MAX,
        ensures
            id == old(self)@,
            final(self)@ == id + 1,
    {
        let id = self.next;
        self.next = id + 1;
        id
    }
}

#[verifier::external_type_specification]
#[verifier::external_body]
#[verifier::reject_recursive_types(T)]
pub struct ExSender<T>(Sender<T>);

/// `Sender::clone`: another handle to the same channel. Nothing more is
/// stated of it.
pub assume_specification<T>[ <Sender<T> as Clone>::clone ](s: &Sender<T>) -> Sender<T>;

/// Hands `msg` to the channel (`Sender::send`). Whether it arrives depends
/// on whether the receiving side is still there, so nothing is stated of
/// the outcome; the call's result is discarded.
#[verifier::external_body]
fn send_reply(tx: &Sender<(u64, String)>, msg: (u64, String)) {
    let _ = tx.send(msg);
}

/// The reply to hand on: none once the server shuts down, otherwise the
/// reply body under its request's number.
pub fn outgoing_reply(shutting_down: bool, id: u64, resp: &str) -> (r: Option<(u64, String)>)
    ensures
        shutting_down ==> r is None,
        !shutting_down ==> (r matches Some((n, body)) && n == id && body@ == resp@),
{
    if shutting_down {
        None
    } else {
        Some((id, resp.to_owned()))
    }
}

/// The handle through which replies reach a running server.
#[derive(Clone)]
pub struct ServerHandle {
    respond_with_fn: Sender<(u64, String)>,
    shutdown_flag: Arc<AtomicBool>,
}

impl ServerHandle {
    /// The channel that replies go to.
    pub closed spec fn sender(&self) -> Sender<(u64, String)> {
        self.respond_with_fn
    }

    /// The stop flag shared with the server.
    pub closed spec fn flag(&self) -> Arc<AtomicBool> {
        self.shutdown_flag
    }

    /// A handle that sends replies to `respond_with_fn` and shares
    /// `shutdown_flag` with the server.
    pub fn new(respond_with_fn: Sender<(u64, String)>, shutdown_flag: Arc<AtomicBool>) -> (h: Self)
        ensures
            h.sender() == respond_with_fn,
            h.flag() == shutdown_flag,
    {
        ServerHandle { respond_with_fn, shutdown_flag }
    }

    /// Replies `resp` to the pending request `id`, unless the server is
    /// shutting down. The flag is shared with other threads, so what it
    /// reads is not known here; `outgoing_reply` states what is sent for
    /// either reading.
    pub fn respond_with(&self, id: u64, resp: &str) {
        let stopping = self.shutdown_flag.load(Ordering::SeqCst);
        if let Some(msg) = outgoing_reply(stopping, id, resp) {
            send_reply(&self.respond_with_fn, msg);
        }
    }

    /// Tells the server to stop.
    pub fn shutdown(&self) {
        self.shutdown_flag.store(true, Ordering::SeqCst);
    }
}

} // verus!
