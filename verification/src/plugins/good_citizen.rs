use vstd::prelude::*;
use crate::message::{dec_string, u64_to_dec, with_header, RespView};
use crate::plugins::{DataView, PluginData};

verus! {

/// The model of a Strict-Transport-Security header value.
#[derive(Clone, Copy, PartialEq, Eq, Structural, Debug)]
pub struct StrictTransportSecurity {
    pub include_subdomains: bool,
    pub max_age_secs: u64,
}

/// The referrer policies this plugin can advertise.
#[derive(Clone, Copy, PartialEq, Eq, Structural, Debug)]
pub enum GcReferrer {
    NoReferrer,
    SameOrigin,
}

impl Default for GcReferrer {
    fn default() -> (r: GcReferrer)
        ensures
            r == GcReferrer::NoReferrer,
    {
        GcReferrer::NoReferrer
    }
}

/// The rendering of a Strict-Transport-Security value.
pub open spec fn sts_value(s: StrictTransportSecurity) -> Seq<char> {
    "max-age="@ + dec_string(s.max_age_secs as nat) + if s.include_subdomains {
        "; includeSubDomains"@
    } else {
        Seq::<char>::empty()
    }
}

/// The rendering of a referrer policy.
pub open spec fn referrer_value(r: GcReferrer) -> Seq<char> {
    match r {
        GcReferrer::NoReferrer => "no-referrer"@,
        GcReferrer::SameOrigin => "same-origin"@,
    }
}

/// Good Citizen is a plugin that helps you treat users of the website
/// with respect.  It deals with issues surrounding privacy, security and
/// usability by stamping the corresponding headers onto every response.
///
/// Plug it in near the end of the chain, unless a later plugin should be
/// able to override it on a per-page basis.
pub struct GoodCitizen {
    strict_transport_security: Option<StrictTransportSecurity>,
    referrer_policy: Option<GcReferrer>,
    content_security_policy: Option<String>,
    x_content_type_options: Option<String>,
    x_frame_options: Option<String>,
    x_xss_protection: Option<String>,
}

/// The view of a Good Citizen configuration.
pub struct GcView {
    pub strict_transport_security: Option<StrictTransportSecurity>,
    pub referrer_policy: Option<GcReferrer>,
    pub content_security_policy: Option<Seq<char>>,
    pub x_content_type_options: Option<Seq<char>>,
    pub x_frame_options: Option<Seq<char>>,
    pub x_xss_protection: Option<Seq<char>>,
}

pub open spec fn str_opt_view(o: Option<String>) -> Option<Seq<char>> {
    match o {
        Some(s) => Some(s@),
        None => None,
    }
}

impl View for GoodCitizen {
    type V = GcView;

    closed spec fn view(&self) -> GcView {
        GcView {
            strict_transport_security: self.strict_transport_security,
            referrer_policy: self.referrer_policy,
            content_security_policy: str_opt_view(self.content_security_policy),
            x_content_type_options: str_opt_view(self.x_content_type_options),
            x_frame_options: str_opt_view(self.x_frame_options),
            x_xss_protection: str_opt_view(self.x_xss_protection),
        }
    }
}

/// The configuration every Good Citizen starts from.
pub open spec fn gc_default_view() -> GcView {
    GcView {
        strict_transport_security: Some(
            StrictTransportSecurity { include_subdomains: true, max_age_secs: 31536000u64 },
        ),
        referrer_policy: Some(GcReferrer::NoReferrer),
        content_security_policy: Some(
            "default-src https:; block-all-mixed-content; upgrade-insecure-requests;"@,
        ),
        x_content_type_options: Some("nosniff"@),
        x_frame_options: Some("DENY"@),
        x_xss_protection: Some("1; mode=block"@),
    }
}

/// What running this plugin does to a request context: each configured
/// header is set on the response, in a fixed order; everything else is
/// passed through untouched.
pub open spec fn gc_apply<S>(gc: GcView, d: DataView<S>) -> DataView<S> {
    let h0 = d.response.headers;
    let h1 = match gc.strict_transport_security {
        Some(s) => with_header(h0, "Strict-Transport-Security"@, sts_value(s)),
        None => h0,
    };
    let h2 = match gc.referrer_policy {
        Some(r) => with_header(h1, "Referrer-Policy"@, referrer_value(r)),
        None => h1,
    };
    let h3 = match gc.content_security_policy {
        Some(v) => with_header(h2, "Content-Security-Policy"@, v),
        None => h2,
    };
    let h4 = match gc.x_content_type_options {
        Some(v) => with_header(h3, "X-Content-Type-Options"@, v),
        None => h3,
    };
    let h5 = match gc.x_xss_protection {
        Some(v) => with_header(h4, "X-Xss-Protection"@, v),
        None => h4,
    };
    DataView {
        response: RespView { status: d.response.status, headers: h5, body: d.response.body },
        ..d
    }
}

impl Default for GoodCitizen {
    /// The default configuration: a year of strict transport security
    /// with subdomains, no referrer, a restrictive content security
    /// policy, and the classic hardening headers.
    fn default() -> (r: GoodCitizen)
        ensures
            r@ == gc_default_view(),
    {
        GoodCitizen {
            strict_transport_security: Some(
                StrictTransportSecurity { include_subdomains: true, max_age_secs: 31536000 },
            ),
            referrer_policy: Some(GcReferrer::NoReferrer),
            content_security_policy: Some(
                String::from_str(
                    "default-src https:; block-all-mixed-content; upgrade-insecure-requests;",
                ),
            ),
            x_content_type_options: Some(String::from_str("nosniff")),
            x_frame_options: Some(String::from_str("DENY")),
            x_xss_protection: Some(String::from_str("1; mode=block")),
        }
    }
}

impl GoodCitizen {
    pub fn new() -> (r: GoodCitizen)
        ensures
            r@ == gc_default_view(),
    {
        Default::default()
    }

    pub fn disable_strict_transport_security(&mut self)
        ensures
            final(self)@ == (GcView { strict_transport_security: None, ..old(self)@ }),
    {
        self.strict_transport_security = None;
    }

    pub fn set_strict_transport_security(&mut self, sts: StrictTransportSecurity)
        ensures
            final(self)@ == (GcView { strict_transport_security: Some(sts), ..old(self)@ }),
    {
        self.strict_transport_security = Some(sts);
    }

    pub fn disable_referrer_policy(&mut self)
        ensures
            final(self)@ == (GcView { referrer_policy: None, ..old(self)@ }),
    {
        self.referrer_policy = None;
    }

    pub fn set_referrer_policy(&mut self, rp: GcReferrer)
        ensures
            final(self)@ == (GcView { referrer_policy: Some(rp), ..old(self)@ }),
    {
        self.referrer_policy = Some(rp);
    }

    pub fn disable_content_security_policy(&mut self)
        ensures
            final(self)@ == (GcView { content_security_policy: None, ..old(self)@ }),
    {
        self.content_security_policy = None;
    }

    pub fn set_content_security_policy(&mut self, csp: String)
        ensures
            final(self)@ == (GcView { content_security_policy: Some(csp@), ..old(self)@ }),
    {
        self.content_security_policy = Some(csp);
    }

    pub fn disable_x_content_type_options(&mut self)
        ensures
            final(self)@ == (GcView { x_content_type_options: None, ..old(self)@ }),
    {
        self.x_content_type_options = None;
    }

    pub fn set_x_content_type_options(&mut self, xcto: String)
        ensures
            final(self)@ == (GcView { x_content_type_options: Some(xcto@), ..old(self)@ }),
    {
        self.x_content_type_options = Some(xcto);
    }

    pub fn disable_x_frame_options(&mut self)
        ensures
            final(self)@ == (GcView { x_frame_options: None, ..old(self)@ }),
    {
        self.x_frame_options = None;
    }

    pub fn set_x_frame_options(&mut self, xfo: String)
        ensures
            final(self)@ == (GcView { x_frame_options: Some(xfo@), ..old(self)@ }),
    {
        self.x_frame_options = Some(xfo);
    }

    pub fn disable_x_xss_protection(&mut self)
        ensures
            final(self)@ == (GcView { x_xss_protection: None, ..old(self)@ }),
    {
        self.x_xss_protection = None;
    }

    pub fn set_x_xss_protection(&mut self, xss: String)
        ensures
            final(self)@ == (GcView { x_xss_protection: Some(xss@), ..old(self)@ }),
    {
        self.x_xss_protection = Some(xss);
    }

    /// Stamp the configured headers onto the response and pass the
    /// context through.  The frame-options value, though configurable,
    /// is kept but not emitted: that is this plugin's settled
    /// behaviour, pinned by `gc_apply` and by a test.
    pub fn handle<S>(&self, data: PluginData<S>) -> (r: PluginData<S>)
        ensures
            r@ == gc_apply(self@, data@),
    {
        let mut data = data;
        if let Some(ref sts) = self.strict_transport_security {
            let mut v = String::from_str("max-age=");
            let digits = u64_to_dec(sts.max_age_secs);
            v.append(digits.as_str());
            if sts.include_subdomains {
                v.append("; includeSubDomains");
            }
            proof {
                assert(v@ =~= sts_value(*sts));
            }
            crate::message::set_header(&mut data.response.headers, "Strict-Transport-Security", v);
        }
        if let Some(ref rp) = self.referrer_policy {
            let v = match rp {
                GcReferrer::NoReferrer => String::from_str("no-referrer"),
                GcReferrer::SameOrigin => String::from_str("same-origin"),
            };
            crate::message::set_header(&mut data.response.headers, "Referrer-Policy", v);
        }
        if let Some(ref csp) = self.content_security_policy {
            let v = csp.clone();
            crate::message::set_header(&mut data.response.headers, "Content-Security-Policy", v);
        }
        if let Some(ref xcto) = self.x_content_type_options {
            let v = xcto.clone();
            crate::message::set_header(&mut data.response.headers, "X-Content-Type-Options", v);
        }
        if let Some(ref xss) = self.x_xss_protection {
            let v = xss.clone();
            crate::message::set_header(&mut data.response.headers, "X-Xss-Protection", v);
        }
        data
    }
}

} // verus!
