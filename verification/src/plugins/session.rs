use vstd::prelude::*;
use crate::message::{lemma_rscan_char, lemma_scan_bounds, lemma_scan_char, lookup_header,
    rscan_from, scan_from, with_header, RespView};
use crate::plugins::{DataView, PluginData};

verus! {

/// Spaces stripped from both ends.
pub open spec fn trim_spaces(s: Seq<char>) -> Seq<char> {
    let a = scan_from(s, |c: char| c != ' ');
    let b = rscan_from(s, |c: char| c != ' ');
    if a > b {
        Seq::empty()
    } else {
        s.subrange(a, b + 1)
    }
}

/// The value a cookie segment binds `name` to, if the segment has the
/// form `name=value` (key compared verbatim, value taken as written).
pub open spec fn segment_value(seg: Seq<char>, name: Seq<char>) -> Option<Seq<char>> {
    let e = scan_from(seg, |c: char| c == '=');
    if e < seg.len() && seg.take(e) == name {
        Some(seg.skip(e + 1))
    } else {
        None
    }
}

/// The value bound to `name` in a Cookie header: segments are separated
/// by semicolons and trimmed of surrounding spaces; the first segment
/// whose key is `name` wins.
pub open spec fn cookie_value_in(h: Seq<char>, name: Seq<char>) -> Option<Seq<char>>
    decreases h.len(),
    via cookie_value_in_decreases
{
    let j = scan_from(h, |c: char| c == ';');
    let seg = trim_spaces(h.take(j));
    if segment_value(seg, name) is Some {
        segment_value(seg, name)
    } else if j >= h.len() {
        None
    } else {
        cookie_value_in(h.skip(j + 1), name)
    }
}

#[via_fn]
proof fn cookie_value_in_decreases(h: Seq<char>, name: Seq<char>) {
    lemma_scan_bounds(h, |c: char| c == ';');
}

/// Look `name` up in a Cookie header value such as `a=1; b=2`.
pub fn cookie_value(h: &str, name: &str) -> (r: Option<String>)
    ensures
        match r {
            Some(v) => cookie_value_in(h@, name@) == Some(v@),
            None => cookie_value_in(h@, name@) is None,
        },
{
    let n = h.unicode_len();
    let name_len = name.unicode_len();
    let mut pos: usize = 0;
    proof {
        assert(h@.skip(0) =~= h@);
    }
    loop
        invariant
            pos <= n,
            n == h@.len(),
            name_len == name@.len(),
            cookie_value_in(h@, name@) == cookie_value_in(h@.skip(pos as int), name@),
        decreases n - pos,
    {
        let ghost suf = h@.skip(pos as int);
        // the current segment runs up to the next semicolon
        let mut j: usize = pos;
        while j < n && h.get_char(j) != ';'
            invariant
                pos <= j <= n,
                n == h@.len(),
                forall|k: int| pos <= k < j ==> h@[k] != ';',
            decreases n - j,
        {
            j = j + 1;
        }
        // strip spaces off both ends of the segment
        let mut a: usize = pos;
        while a < j && h.get_char(a) == ' '
            invariant
                pos <= a <= j,
                j <= n,
                n == h@.len(),
                forall|k: int| pos <= k < a ==> h@[k] == ' ',
            decreases j - a,
        {
            a = a + 1;
        }
        let mut b: usize = j;
        while b > a && h.get_char(b - 1) == ' '
            invariant
                a <= b <= j,
                j <= n,
                n == h@.len(),
                forall|k: int| b <= k < j ==> h@[k] == ' ',
            decreases b,
        {
            b = b - 1;
        }
        let ghost raw = suf.take(j - pos);
        let ghost seg = trim_spaces(raw);
        proof {
            assert(forall|k: int| 0 <= k < suf.len() ==> suf[k] == h@[pos + k]);
            lemma_scan_char(suf, |c: char| c == ';', j - pos);
            if a < j {
                lemma_scan_char(raw, |c: char| c != ' ', a - pos);
                lemma_rscan_char(raw, |c: char| c != ' ', b - pos - 1);
                assert(seg =~= h@.subrange(a as int, b as int));
            } else {
                lemma_scan_char(raw, |c: char| c != ' ', raw.len() as int);
                lemma_rscan_char(raw, |c: char| c != ' ', -1);
                assert(b == a);
                assert(seg =~= h@.subrange(a as int, b as int));
            }
        }
        // split the segment at its first equals sign
        let mut e: usize = a;
        while e < b && h.get_char(e) != '='
            invariant
                a <= e <= b,
                b <= n,
                n == h@.len(),
                forall|k: int| a <= k < e ==> h@[k] != '=',
            decreases b - e,
        {
            e = e + 1;
        }
        proof {
            assert(forall|k: int| 0 <= k < seg.len() ==> seg[k] == h@[a + k]);
            lemma_scan_char(seg, |c: char| c == '=', e - a);
        }
        let mut matched = false;
        if e < b && e - a == name_len {
            let mut k: usize = 0;
            let mut ok = true;
            while k < name_len
                invariant
                    k <= name_len,
                    name_len == name@.len(),
                    a + name_len <= n,
                    n == h@.len(),
                    ok == (forall|k2: int| 0 <= k2 < k ==> h@[a + k2] == name@[k2]),
                decreases name_len - k,
            {
                if h.get_char(a + k) != name.get_char(k) {
                    ok = false;
                }
                k = k + 1;
            }
            matched = ok;
        }
        proof {
            if matched {
                assert(seg.take(e - a) =~= name@);
            } else if e < b && e - a == name_len {
                assert(seg.take(e - a).len() == name@.len());
                assert(seg.take(e - a) != name@);
            } else if e < b {
                assert(seg.take(e - a).len() != name@.len());
                assert(seg.take(e - a) != name@);
            }
        }
        if matched {
            let v = h.substring_char(e + 1, b);
            proof {
                assert(segment_value(seg, name@) == Some(seg.skip(e - a + 1)));
                assert(seg.skip(e - a + 1) =~= v@);
            }
            return Some(String::from_str(v));
        }
        proof {
            assert(segment_value(seg, name@) is None);
        }
        if j >= n {
            return None;
        }
        let ghost oldpos = pos as int;
        pos = j + 1;
        proof {
            assert(h@.skip(pos as int) =~= suf.skip(j - oldpos + 1));
        }
    }
}

/// The Set-Cookie value the cookie crate renders for a plain
/// name-and-value cookie with a path and the two boolean attributes.
pub open spec fn cookie_render(
    name: Seq<char>,
    value: Seq<char>,
    path: Seq<char>,
    secure: bool,
    http_only: bool,
) -> Seq<char> {
    name + "="@ + value + (if http_only {
        "; HttpOnly"@
    } else {
        Seq::<char>::empty()
    }) + (if secure {
        "; Secure"@
    } else {
        Seq::<char>::empty()
    }) + "; Path="@ + path
}

/// Relies on the cookie crate's Cookie: built from a name and a value
/// with only path, secure and http-only set, it renders as the name and
/// value followed by the set attributes, in that crate's fixed order.
#[verifier::external_body]
fn render_cookie(name: &str, value: &str, path: &str, secure: bool, http_only: bool) -> (r: String)
    ensures
        r@ == cookie_render(name@, value@, path@, secure, http_only),
{
    let mut c = cookie::Cookie::new(name.to_owned(), value.to_owned());
    c.set_path(path.to_owned());
    c.set_secure(secure);
    c.set_http_only(http_only);
    c.to_string()
}

/// Relies on textnonce::TextNonce::sized: a 32-character nonce built from
/// the clock and random bytes, in base64 text; it fails only when the
/// clock reads before the epoch.
#[verifier::external_body]
fn fresh_session_key() -> (r: Result<String, String>)
    ensures
        r matches Ok(k) ==> k@.len() == 32,
{
    textnonce::TextNonce::sized(32).map(|n| n.into_string())
}

/// This plugin implements sessions.  Sessions associate subsequent
/// requests with earlier requests: a cookie is set on the first response
/// and found again on later requests.
///
/// The plugin only manages the cookie and maintains the context's
/// session id; associating data with that id is left to the consumer
/// (store it in the shared state, perhaps).
///
/// Plug this in before the plugins that read session identity.
pub struct Session {
    cookie_name: String,
    secure: bool,
    http_only: bool,
    respect_dnt_ad_absurdum: bool,
}

/// The view of a session plugin's configuration.
pub struct SessView {
    pub cookie_name: Seq<char>,
    pub secure: bool,
    pub http_only: bool,
    pub respect_dnt: bool,
}

impl View for Session {
    type V = SessView;

    closed spec fn view(&self) -> SessView {
        SessView {
            cookie_name: self.cookie_name@,
            secure: self.secure,
            http_only: self.http_only,
            respect_dnt: self.respect_dnt_ad_absurdum,
        }
    }
}

impl Session {
    /// Create the session plugin.
    ///
    /// `cookie_name` names the cookie; `secure` forbids transmission
    /// without TLS; `http_only` keeps the cookie away from scripts.
    pub fn new(cookie_name: String, secure: bool, http_only: bool) -> (s: Session)
        ensures
            s@ == (SessView {
                cookie_name: cookie_name@,
                secure,
                http_only,
                respect_dnt: false,
            }),
    {
        Session { cookie_name, secure, http_only, respect_dnt_ad_absurdum: false }
    }

    /// After this, clients sending `Dnt: 1` get no session at all:
    /// setting a cookie and finding it later is, strictly speaking,
    /// tracking.
    pub fn respect_dnt_ad_absurdum(&mut self)
        ensures
            final(self)@ == (SessView { respect_dnt: true, ..old(self)@ }),
    {
        self.respect_dnt_ad_absurdum = true;
    }
}

/// Whether the request carries a Do-Not-Track header that is not `0`.
pub open spec fn dnt_requested(hs: Seq<(Seq<char>, Seq<char>)>) -> bool {
    match lookup_header(hs, "Dnt"@) {
        Some(v) => v != "0"@,
        None => false,
    }
}

/// What running the session plugin does to a request context, given the
/// outcome `mint` of minting a fresh key (consulted only when a key is
/// actually needed).  An error is the plugin's failure, to be recovered
/// by the dispatcher.
pub open spec fn session_apply<S>(
    s: SessView,
    d: DataView<S>,
    mint: Result<Seq<char>, Seq<char>>,
) -> Result<DataView<S>, Seq<char>> {
    if s.respect_dnt && dnt_requested(d.request.headers) {
        Ok(
            DataView {
                session_id: None,
                response: RespView {
                    status: d.response.status,
                    headers: with_header(d.response.headers, "Tk"@, "N"@),
                    body: d.response.body,
                },
                ..d
            },
        )
    } else {
        match lookup_header(d.request.headers, "Cookie"@) {
            Some(ch) if cookie_value_in(ch, s.cookie_name) is Some => Ok(
                DataView { session_id: cookie_value_in(ch, s.cookie_name), ..d },
            ),
            _ => match mint {
                Ok(key) => Ok(
                    DataView {
                        session_id: Some(key),
                        response: RespView {
                            status: d.response.status,
                            headers: with_header(
                                d.response.headers,
                                "Set-Cookie"@,
                                cookie_render(s.cookie_name, key, "/"@, s.secure, s.http_only),
                            ),
                            body: d.response.body,
                        },
                        ..d
                    },
                ),
                Err(m) => Err(m),
            },
        }
    }
}

/// The view of the session plugin's exec outcome.
pub open spec fn session_result_view<S>(r: Result<PluginData<S>, String>) -> Result<
    DataView<S>,
    Seq<char>,
> {
    match r {
        Ok(d) => Ok(d@),
        Err(e) => Err(e@),
    }
}

impl Session {
    /// Attach session identity to the context: honour Do-Not-Track if so
    /// configured, otherwise adopt the key from the request's cookie, or
    /// mint a fresh key and set the cookie on the response.
    pub fn handle<S>(&self, data: PluginData<S>) -> (r: Result<PluginData<S>, String>)
        ensures
            exists|mint: Result<Seq<char>, Seq<char>>|
                {
                    &&& session_result_view(r) == session_apply(self@, data@, mint)
                    &&& (mint matches Ok(k) ==> k.len() == 32)
                },
    {
        let ghost d0 = data@;
        let mut data = data;
        if self.respect_dnt_ad_absurdum {
            let dnt = match crate::message::get_header(&data.request.headers, "Dnt") {
                Some(v) => !crate::message::str_eq(v.as_str(), "0"),
                None => false,
            };
            if dnt {
                data.session_id = None;
                crate::message::set_header(&mut data.response.headers, "Tk", String::from_str("N"));
                let r = Ok(data);
                proof {
                    let mint = Result::<Seq<char>, Seq<char>>::Err(Seq::empty());
                    assert(session_result_view(r) == session_apply(self@, d0, mint));
                }
                return r;
            }
        }
        let mut existing: Option<String> = None;
        if let Some(ch) = crate::message::get_header(&data.request.headers, "Cookie") {
            existing = cookie_value(ch.as_str(), self.cookie_name.as_str());
        }
        if let Some(key) = existing {
            data.session_id = Some(key);
            let r = Ok(data);
            proof {
                let mint = Result::<Seq<char>, Seq<char>>::Err(Seq::empty());
                assert(session_result_view(r) == session_apply(self@, d0, mint));
            }
            return r;
        }
        match fresh_session_key() {
            Ok(key) => {
                let set_cookie = render_cookie(
                    self.cookie_name.as_str(),
                    key.as_str(),
                    "/",
                    self.secure,
                    self.http_only,
                );
                let ghost mint = Result::<Seq<char>, Seq<char>>::Ok(key@);
                data.session_id = Some(key);
                crate::message::set_header(&mut data.response.headers, "Set-Cookie", set_cookie);
                let r = Ok(data);
                proof {
                    assert(session_result_view(r) == session_apply(self@, d0, mint));
                }
                r
            },
            Err(e) => {
                let r = Err(e);
                proof {
                    let mint = Result::<Seq<char>, Seq<char>>::Err(e@);
                    assert(session_result_view(r) == session_apply(self@, d0, mint));
                }
                r
            },
        }
    }
}

} // verus!
