use vstd::prelude::*;

verus! {

/// An HTTP request method.  Routing matches on the exact method, so the
/// set of methods is the closed set of standard ones.
#[derive(Clone, Copy, PartialEq, Eq, Hash, Debug, Structural)]
pub enum Method {
    Options,
    Get,
    Post,
    Put,
    Delete,
    Head,
    Trace,
    Connect,
    Patch,
}

impl Method {
    /// The numeric code under which a method is stored in a route key.
    pub closed spec fn code_spec(self) -> u8 {
        match self {
            Method::Options => 0,
            Method::Get => 1,
            Method::Post => 2,
            Method::Put => 3,
            Method::Delete => 4,
            Method::Head => 5,
            Method::Trace => 6,
            Method::Connect => 7,
            Method::Patch => 8,
        }
    }

    pub fn code(&self) -> (c: u8)
        ensures
            c == self.code_spec(),
    {
        match self {
            Method::Options => 0,
            Method::Get => 1,
            Method::Post => 2,
            Method::Put => 3,
            Method::Delete => 4,
            Method::Head => 5,
            Method::Trace => 6,
            Method::Connect => 7,
            Method::Patch => 8,
        }
    }
}

/// Two distinct methods always get distinct codes, so a route key built
/// from a code identifies the method exactly.
pub proof fn lemma_method_code_injective(a: Method, b: Method)
    ensures
        a.code_spec() == b.code_spec() ==> a == b,
{
}

/// The mathematical value of a header list: each pair of names and values
/// as sequences of characters, in order.
pub open spec fn headers_view(hs: Seq<(String, String)>) -> Seq<(Seq<char>, Seq<char>)> {
    Seq::new(hs.len(), |i: int| (hs[i].0@, hs[i].1@))
}

/// The value of the first header named `name`, if any.  Names match
/// verbatim: the library stores and looks up canonical spellings, and
/// callers normalise wire-format names before handing a request over.
pub open spec fn lookup_header(hs: Seq<(Seq<char>, Seq<char>)>, name: Seq<char>) -> Option<
    Seq<char>,
>
    decreases hs.len(),
{
    if hs.len() == 0 {
        None
    } else if hs.first().0 == name {
        Some(hs.first().1)
    } else {
        lookup_header(hs.drop_first(), name)
    }
}

/// The header list with every header named `name` removed.
pub open spec fn strip_header(hs: Seq<(Seq<char>, Seq<char>)>, name: Seq<char>) -> Seq<
    (Seq<char>, Seq<char>),
>
    decreases hs.len(),
{
    if hs.len() == 0 {
        Seq::empty()
    } else if hs.first().0 == name {
        strip_header(hs.drop_first(), name)
    } else {
        seq![hs.first()] + strip_header(hs.drop_first(), name)
    }
}

/// The header list after setting `name` to `value`: any previous header of
/// that name is replaced, as a typed header map would do.
pub open spec fn with_header(
    hs: Seq<(Seq<char>, Seq<char>)>,
    name: Seq<char>,
    value: Seq<char>,
) -> Seq<(Seq<char>, Seq<char>)> {
    strip_header(hs, name).push((name, value))
}

/// Every entry of a stripped list bears some other name.
proof fn lemma_strip_header_strips(hs: Seq<(Seq<char>, Seq<char>)>, name: Seq<char>)
    ensures
        forall|i: int|
            0 <= i < strip_header(hs, name).len() ==> #[trigger] strip_header(hs, name)[i].0
                != name,
    decreases hs.len(),
{
    if hs.len() > 0 {
        lemma_strip_header_strips(hs.drop_first(), name);
        let s = strip_header(hs, name);
        let rest = strip_header(hs.drop_first(), name);
        if hs.first().0 != name {
            assert(s == seq![hs.first()] + rest);
            assert forall|i: int| 0 <= i < s.len() implies s[i].0 != name by {
                if i == 0 {
                    assert(s[0] == hs.first());
                } else {
                    assert(s[i] == rest[i - 1]);
                }
            }
        }
    }
}

/// Appending an entry of the sought name to a list free of it makes the
/// lookup find exactly that entry.
proof fn lemma_lookup_push_match(hs: Seq<(Seq<char>, Seq<char>)>, name: Seq<char>, value: Seq<char>)
    requires
        forall|i: int| 0 <= i < hs.len() ==> (#[trigger] hs[i]).0 != name,
    ensures
        lookup_header(hs.push((name, value)), name) == Some(value),
    decreases hs.len(),
{
    if hs.len() == 0 {
        assert(hs.push((name, value)).first() == (name, value));
    } else {
        assert(hs.push((name, value)).first() == hs[0]);
        assert(hs.push((name, value)).drop_first() =~= hs.drop_first().push((name, value)));
        assert(forall|i: int|
            0 <= i < hs.drop_first().len() ==> (#[trigger] hs.drop_first()[i]).0 == hs[i + 1].0);
        lemma_lookup_push_match(hs.drop_first(), name, value);
    }
}

/// Appending an entry of some other name does not change a lookup.
proof fn lemma_lookup_push_other(
    hs: Seq<(Seq<char>, Seq<char>)>,
    p: (Seq<char>, Seq<char>),
    name: Seq<char>,
)
    requires
        p.0 != name,
    ensures
        lookup_header(hs.push(p), name) == lookup_header(hs, name),
    decreases hs.len(),
{
    if hs.len() == 0 {
        assert(hs.push(p).first() == p);
        assert(hs.push(p).drop_first() =~= Seq::<(Seq<char>, Seq<char>)>::empty());
    } else {
        assert(hs.push(p).first() == hs[0]);
        assert(hs.push(p).drop_first() =~= hs.drop_first().push(p));
        lemma_lookup_push_other(hs.drop_first(), p, name);
    }
}

/// Stripping one name's entries does not change the lookup of another.
proof fn lemma_lookup_strip_other(
    hs: Seq<(Seq<char>, Seq<char>)>,
    name: Seq<char>,
    other: Seq<char>,
)
    requires
        other != name,
    ensures
        lookup_header(strip_header(hs, name), other) == lookup_header(hs, other),
    decreases hs.len(),
{
    if hs.len() > 0 {
        lemma_lookup_strip_other(hs.drop_first(), name, other);
        if hs.first().0 != name {
            let rest = strip_header(hs.drop_first(), name);
            assert((seq![hs.first()] + rest).first() == hs.first());
            assert((seq![hs.first()] + rest).drop_first() =~= rest);
        }
    }
}

/// Law: after setting a header, looking its name up yields exactly the
/// value just set — whatever stood under that name before.
pub proof fn lemma_lookup_after_set(
    hs: Seq<(Seq<char>, Seq<char>)>,
    name: Seq<char>,
    value: Seq<char>,
)
    ensures
        lookup_header(with_header(hs, name, value), name) == Some(value),
{
    lemma_strip_header_strips(hs, name);
    lemma_lookup_push_match(strip_header(hs, name), name, value);
}

/// Law: setting one header leaves the lookup of every other name as it
/// was.
pub proof fn lemma_lookup_other_after_set(
    hs: Seq<(Seq<char>, Seq<char>)>,
    name: Seq<char>,
    value: Seq<char>,
    other: Seq<char>,
)
    requires
        other != name,
    ensures
        lookup_header(with_header(hs, name, value), other) == lookup_header(hs, other),
{
    lemma_lookup_push_other(strip_header(hs, name), (name, value), other);
    lemma_lookup_strip_other(hs, name, other);
}

/// The first position in `s` whose character satisfies `p`, or the length
/// when none does.
pub open spec fn scan_from(s: Seq<char>, p: spec_fn(char) -> bool) -> int
    decreases s.len(),
{
    if s.len() == 0 {
        0
    } else if p(s.first()) {
        0
    } else {
        1 + scan_from(s.drop_first(), p)
    }
}

/// The last position in `s` whose character satisfies `p`, or -1 when
/// none does.
pub open spec fn rscan_from(s: Seq<char>, p: spec_fn(char) -> bool) -> int
    decreases s.len(),
{
    if s.len() == 0 {
        -1
    } else if p(s.last()) {
        s.len() - 1
    } else {
        rscan_from(s.drop_last(), p)
    }
}

/// A forward scan lands between zero and the length.
pub proof fn lemma_scan_bounds(s: Seq<char>, p: spec_fn(char) -> bool)
    ensures
        0 <= scan_from(s, p) <= s.len(),
    decreases s.len(),
{
    if s.len() > 0 && !p(s.first()) {
        lemma_scan_bounds(s.drop_first(), p);
    }
}

/// A position scanned to by an executable forward search is the one
/// `scan_from` names.
pub proof fn lemma_scan_char(s: Seq<char>, p: spec_fn(char) -> bool, i: int)
    requires
        0 <= i <= s.len(),
        forall|k: int| 0 <= k < i ==> !p(s[k]),
        i < s.len() ==> p(s[i]),
    ensures
        scan_from(s, p) == i,
    decreases i,
{
    if s.len() == 0 {
    } else if i == 0 {
    } else {
        lemma_scan_char(s.drop_first(), p, i - 1);
    }
}

/// A position scanned to by an executable backward search is the one
/// `rscan_from` names.
pub proof fn lemma_rscan_char(s: Seq<char>, p: spec_fn(char) -> bool, i: int)
    requires
        -1 <= i < s.len(),
        forall|k: int| i < k < s.len() ==> !p(s[k]),
        i >= 0 ==> p(s[i]),
    ensures
        rscan_from(s, p) == i,
    decreases s.len(),
{
    if s.len() == 0 {
    } else if i == s.len() - 1 {
    } else {
        assert(s.drop_last() =~= s.take(s.len() - 1));
        lemma_rscan_char(s.drop_last(), p, i);
    }
}

/// Character-for-character equality of two string slices.
pub fn str_eq(a: &str, b: &str) -> (r: bool)
    ensures
        r == (a@ == b@),
{
    let sa = String::from_str(a);
    let sb = String::from_str(b);
    sa == sb
}

/// Removing a non-matching front element steps `lookup_header` forward.
proof fn lemma_lookup_skip_step(hs: Seq<(Seq<char>, Seq<char>)>, name: Seq<char>, i: int)
    requires
        0 <= i < hs.len(),
        hs[i].0 != name,
    ensures
        lookup_header(hs.skip(i), name) == lookup_header(hs.skip(i + 1), name),
{
    assert(hs.skip(i).first() == hs[i]);
    assert(hs.skip(i).drop_first() =~= hs.skip(i + 1));
}

/// Find the first header named `name`, scanning in order.
pub fn get_header<'a>(hs: &'a Vec<(String, String)>, name: &str) -> (r: Option<&'a String>)
    ensures
        match r {
            Some(v) => lookup_header(headers_view(hs@), name@) == Some(v@),
            None => lookup_header(headers_view(hs@), name@) is None,
        },
{
    let key = String::from_str(name);
    let ghost hv = headers_view(hs@);
    proof {
        assert(hv.skip(0) =~= hv);
    }
    let mut i: usize = 0;
    while i < hs.len()
        invariant
            i <= hs@.len(),
            key@ == name@,
            hv == headers_view(hs@),
            lookup_header(hv, name@) == lookup_header(hv.skip(i as int), name@),
        decreases hs@.len() - i,
    {
        if hs[i].0 == key {
            proof {
                assert(hv.skip(i as int).first() == hv[i as int]);
            }
            return Some(&hs[i].1);
        }
        proof {
            lemma_lookup_skip_step(hv, name@, i as int);
        }
        i = i + 1;
    }
    proof {
        assert(hv.skip(hs@.len() as int) =~= Seq::<(Seq<char>, Seq<char>)>::empty());
    }
    None
}

/// Set header `name` to `value` on the list, replacing any header of that
/// name, as a typed header map replaces.
pub fn set_header(hs: &mut Vec<(String, String)>, name: &str, value: String)
    ensures
        headers_view(final(hs)@) == with_header(headers_view(old(hs)@), name@, value@),
{
    let key = String::from_str(name);
    let ghost orig = headers_view(old(hs)@);
    proof {
        assert(orig.skip(0) =~= orig);
        assert(orig.take(0) + strip_header(orig.skip(0), name@) =~= strip_header(orig, name@));
    }
    let mut i: usize = 0;
    while i < hs.len()
        invariant
            i <= hs@.len(),
            key@ == name@,
            forall|j: int| 0 <= j < i ==> headers_view(hs@)[j].0 != name@,
            strip_header(orig, name@) == headers_view(hs@).take(i as int) + strip_header(
                headers_view(hs@).skip(i as int),
                name@,
            ),
        decreases hs@.len() - i,
    {
        let ghost hv = headers_view(hs@);
        if hs[i].0 == key {
            hs.remove(i);
            proof {
                let nv = headers_view(hs@);
                assert(hv.skip(i as int).first() == hv[i as int]);
                assert(hv.skip(i as int).drop_first() =~= hv.skip(i as int + 1));
                assert(nv.take(i as int) =~= hv.take(i as int));
                assert(nv.skip(i as int) =~= hv.skip(i as int + 1));
                assert forall|j: int| 0 <= j < i implies nv[j].0 != name@ by {
                    assert(nv.take(i as int)[j] == nv[j]);
                    assert(hv.take(i as int)[j] == hv[j]);
                }
            }
        } else {
            i = i + 1;
            proof {
                let ii = i as int - 1;
                assert(hv.skip(ii).first() == hv[ii]);
                assert(hv.skip(ii).drop_first() =~= hv.skip(ii + 1));
                assert(hv.take(ii + 1) =~= hv.take(ii) + seq![hv[ii]]);
                assert(hv.take(ii) + (seq![hv[ii]] + strip_header(hv.skip(ii + 1), name@))
                    =~= hv.take(ii + 1) + strip_header(hv.skip(ii + 1), name@));
            }
        }
    }
    proof {
        let hv = headers_view(hs@);
        assert(hv.skip(i as int) =~= Seq::<(Seq<char>, Seq<char>)>::empty());
        assert(hv.take(i as int) =~= hv);
        assert(strip_header(orig, name@) == hv);
    }
    hs.push((key, value));
    proof {
        assert(headers_view(hs@) =~= strip_header(orig, name@).push((name@, value@)));
    }
}

/// The character for one decimal digit.
pub open spec fn dec_digit(d: int) -> char {
    if d == 0 {
        '0'
    } else if d == 1 {
        '1'
    } else if d == 2 {
        '2'
    } else if d == 3 {
        '3'
    } else if d == 4 {
        '4'
    } else if d == 5 {
        '5'
    } else if d == 6 {
        '6'
    } else if d == 7 {
        '7'
    } else if d == 8 {
        '8'
    } else {
        '9'
    }
}

/// The decimal rendering of a number, most significant digit first, with
/// no leading zeros (a lone zero for zero itself).
pub open spec fn dec_string(n: nat) -> Seq<char>
    decreases n,
{
    if n < 10 {
        seq![dec_digit(n as int)]
    } else {
        dec_string(n / 10).push(dec_digit((n % 10) as int))
    }
}

fn digit_str(d: u64) -> (r: &'static str)
    requires
        d < 10,
    ensures
        r@ == seq![dec_digit(d as int)],
{
    proof {
        reveal_strlit("0");
        reveal_strlit("1");
        reveal_strlit("2");
        reveal_strlit("3");
        reveal_strlit("4");
        reveal_strlit("5");
        reveal_strlit("6");
        reveal_strlit("7");
        reveal_strlit("8");
        reveal_strlit("9");
    }
    let r: &'static str = if d == 0 {
        "0"
    } else if d == 1 {
        "1"
    } else if d == 2 {
        "2"
    } else if d == 3 {
        "3"
    } else if d == 4 {
        "4"
    } else if d == 5 {
        "5"
    } else if d == 6 {
        "6"
    } else if d == 7 {
        "7"
    } else if d == 8 {
        "8"
    } else {
        "9"
    };
    proof {
        assert(r@ =~= seq![dec_digit(d as int)]);
    }
    r
}

/// Render a number in decimal.
pub fn u64_to_dec(n: u64) -> (s: String)
    ensures
        s@ == dec_string(n as nat),
    decreases n,
{
    if n < 10 {
        String::from_str(digit_str(n))
    } else {
        let mut s = u64_to_dec(n / 10);
        s.append(digit_str(n % 10));
        proof {
            assert(s@ =~= dec_string(n as nat));
        }
        s
    }
}

/// An inbound HTTP request, reduced to the values the dispatch core reads:
/// the wire parsing itself is the transport's concern.
pub struct Request {
    pub method: Method,
    /// The request path (more precisely, the URI as one string).
    pub path: String,
    /// Header names and values, in wire order, names in the canonical
    /// spellings the plugins look up.
    pub headers: Vec<(String, String)>,
    pub body: Vec<u8>,
}

/// The view of a request.
pub struct ReqView {
    pub method: Method,
    pub path: Seq<char>,
    pub headers: Seq<(Seq<char>, Seq<char>)>,
    pub body: Seq<u8>,
}

impl View for Request {
    type V = ReqView;

    open spec fn view(&self) -> ReqView {
        ReqView {
            method: self.method,
            path: self.path@,
            headers: headers_view(self.headers@),
            body: self.body@,
        }
    }
}

/// A response in progress.  `body` stays `None` until some plugin or
/// handler sets it; an unset body leaves the wire body empty.
pub struct Response {
    pub status: u16,
    pub headers: Vec<(String, String)>,
    pub body: Option<Vec<u8>>,
}

/// The view of a response.
pub struct RespView {
    pub status: u16,
    pub headers: Seq<(Seq<char>, Seq<char>)>,
    pub body: Option<Seq<u8>>,
}

impl View for Response {
    type V = RespView;

    open spec fn view(&self) -> RespView {
        RespView {
            status: self.status,
            headers: headers_view(self.headers@),
            body: match self.body {
                Some(ref b) => Some(b@),
                None => None,
            },
        }
    }
}

pub const STATUS_OK: u16 = 200;

pub const STATUS_NOT_FOUND: u16 = 404;

pub const STATUS_INTERNAL_SERVER_ERROR: u16 = 500;

/// The response every request context starts from: an unmatched route is
/// not an error, it is this default, returned unchanged.
pub open spec fn default_response_view() -> RespView {
    RespView { status: STATUS_NOT_FOUND, headers: Seq::empty(), body: None }
}

impl Response {
    /// A fresh response: not found, no headers, no body yet.
    pub fn new_default() -> (r: Response)
        ensures
            r@ == default_response_view(),
    {
        let r = Response { status: STATUS_NOT_FOUND, headers: Vec::new(), body: None };
        proof {
            assert(r@.headers =~= default_response_view().headers);
            assert(r@ =~= default_response_view());
        }
        r
    }
}

} // verus!
