use vstd::prelude::*;
use std::sync::Arc;
use crate::message::{ReqView, Request, RespView, Response};
use crate::shared::Shared;
use self::good_citizen::{GcView, GoodCitizen};
use self::htdocs::{Htdocs, HtdocsView};
use self::page_visits::PageVisits;
use self::session::{SessView, Session};

pub mod good_citizen;
pub mod htdocs;
pub mod page_visits;
pub mod router;
pub mod session;

verus! {

/// The per-request record threaded through the plugin chain.  Created
/// fresh for each inbound request, handed from stage to stage by
/// ownership transfer, and consumed at chain end for the wire response.
pub struct PluginData<S> {
    /// The process-wide shared context, borrowed by every request.
    pub shared: Arc<Shared<S>>,
    /// The inbound request, owned by this context.
    pub request: Request,
    /// The response in progress.  It starts at the unmatched-route
    /// default; whatever the chain leaves here is the final response.
    pub response: Response,
    /// The session identifier: set by a session plugin, read by
    /// downstream plugins and handlers.
    pub session_id: Option<String>,
}

/// The view of a request context.
pub struct DataView<S> {
    pub shared: Arc<Shared<S>>,
    pub request: ReqView,
    pub response: RespView,
    pub session_id: Option<Seq<char>>,
}

impl<S> View for PluginData<S> {
    type V = DataView<S>;

    open spec fn view(&self) -> DataView<S> {
        DataView {
            shared: self.shared,
            request: self.request@,
            response: self.response@,
            session_id: match self.session_id {
                Some(ref s) => Some(s@),
                None => None,
            },
        }
    }
}

/// One unit of the plugin chain: the closed set of middleware this
/// library ships, or an externally implemented plugin named by an id,
/// which the dispatcher hands back to its caller to run.
pub enum Plugin {
    GoodCitizen(GoodCitizen),
    Session(Session),
    PageVisits(PageVisits),
    Router(router::Router),
    Htdocs(Htdocs),
    External(u64),
}

/// The view of one chain unit: the stateful units appear as their
/// mathematical contents.
pub enum UnitView {
    GoodCitizen(GcView),
    Session(SessView),
    PageVisits(Map<Seq<char>, u32>),
    Router(Map<(Seq<char>, u8), u64>),
    Htdocs(HtdocsView),
    External(u64),
}

impl View for Plugin {
    type V = UnitView;

    open spec fn view(&self) -> UnitView {
        match self {
            Plugin::GoodCitizen(g) => UnitView::GoodCitizen(g@),
            Plugin::Session(s) => UnitView::Session(s@),
            Plugin::PageVisits(p) => UnitView::PageVisits(p.counts_view()),
            Plugin::Router(r) => UnitView::Router(r.table()),
            Plugin::Htdocs(h) => UnitView::Htdocs(h@),
            Plugin::External(id) => UnitView::External(*id),
        }
    }
}

/// The view of a whole chain.
pub open spec fn chain_view(ps: Seq<Plugin>) -> Seq<UnitView> {
    ps.map_values(|p: Plugin| p@)
}

} // verus!
