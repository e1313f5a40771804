//! An embeddable HTTP request-dispatch core: a route table resolves each
//! request by path and method, an ordered chain of plugins runs around
//! the resolved handler, and every request ends in some response.
//!
//! The dispatcher is a step machine: it runs the chain until a plugin
//! needs outside work — a handler, an external plugin, a file read —
//! and hands that task to its caller, who performs it and resumes the
//! chain with the outcome.  The caller's event loop stays free while
//! such work is pending.

use vstd::prelude::*;
use std::sync::Arc;

pub mod config;
pub mod message;
pub mod plugins;
pub mod router;
pub mod shared;

pub use config::Config;
pub use plugins::{Plugin, PluginData};
pub use shared::Shared;

use crate::message::{default_response_view, Method, ReqView, RespView, Request, Response};
use crate::plugins::good_citizen::gc_apply;
use crate::plugins::htdocs::{candidate_path, file_apply, FileOutcome, FileView};
use crate::plugins::page_visits::record_spec;
use crate::plugins::session::{session_apply, SessView};
use crate::plugins::{chain_view, DataView, UnitView};
use crate::router::route_lookup;

verus! {

/// Outside work the dispatcher asks its caller to perform.
pub enum Task {
    /// Run the handler with this id on the carried context.
    RunHandler(u64),
    /// Run the externally implemented plugin with this id.
    RunPlugin(u64),
    /// Read the file at this path.
    ReadFile(String),
}

/// The view of a task.
pub enum TaskView {
    RunHandler(u64),
    RunPlugin(u64),
    ReadFile(Seq<char>),
}

impl View for Task {
    type V = TaskView;

    open spec fn view(&self) -> TaskView {
        match self {
            Task::RunHandler(h) => TaskView::RunHandler(*h),
            Task::RunPlugin(p) => TaskView::RunPlugin(*p),
            Task::ReadFile(p) => TaskView::ReadFile(p@),
        }
    }
}

/// Where a suspended dispatch waits: which unit, and whether the
/// pending file read already names an index file.
#[derive(Clone, Copy)]
pub struct Pending {
    pub at: usize,
    pub reading_index: bool,
}

/// One step of a dispatch: either outside work to perform before the
/// chain can go on, or the finished response.
pub enum Step<S> {
    Run { pending: Pending, task: Task, data: PluginData<S> },
    Done { response: Response, error: Option<String> },
}

/// The view of a step.
pub enum StepView<S> {
    Run { at: int, reading_index: bool, task: TaskView, data: DataView<S> },
    Done { response: RespView, error: Option<Seq<char>> },
}

impl<S> View for Step<S> {
    type V = StepView<S>;

    open spec fn view(&self) -> StepView<S> {
        match self {
            Step::Run { pending, task, data } => StepView::Run {
                at: pending.at as int,
                reading_index: pending.reading_index,
                task: task@,
                data: data@,
            },
            Step::Done { response, error } => StepView::Done {
                response: response@,
                error: match error {
                    Some(e) => Some(e@),
                    None => None,
                },
            },
        }
    }
}

/// The outcome of the outside work a step asked for.
pub enum Event<S> {
    /// The handler or plugin succeeded with this context.
    Succeeded(PluginData<S>),
    /// The handler or plugin failed; the description is for the
    /// operator's log.
    Failed(String),
    /// The file read came to this.
    File(FileOutcome, PluginData<S>),
}

/// The view of an event.
pub enum EventView<S> {
    Succeeded(DataView<S>),
    Failed(Seq<char>),
    File(FileView, DataView<S>),
}

impl<S> View for Event<S> {
    type V = EventView<S>;

    open spec fn view(&self) -> EventView<S> {
        match self {
            Event::Succeeded(d) => EventView::Succeeded(d@),
            Event::Failed(m) => EventView::Failed(m@),
            Event::File(f, d) => EventView::File(f@, d@),
        }
    }
}

/// What a chain run leaves behind: the units (some with new contents)
/// and the step the run stopped at.
pub struct ChainSpec<S> {
    pub units: Seq<UnitView>,
    pub step: StepView<S>,
}

/// The response sent when a plugin or handler failed: a bare server
/// error, nothing of the cause exposed to the client.
pub open spec fn error_response_view() -> RespView {
    RespView {
        status: message::STATUS_INTERNAL_SERVER_ERROR,
        headers: Seq::empty(),
        body: Some(Seq::empty()),
    }
}

fn error_response() -> (r: Response)
    ensures
        r@ == error_response_view(),
{
    let r = Response {
        status: message::STATUS_INTERNAL_SERVER_ERROR,
        headers: Vec::new(),
        body: Some(Vec::new()),
    };
    proof {
        assert(r@.headers =~= error_response_view().headers);
        assert(r@.body->0 =~= error_response_view().body->0);
    }
    r
}

/// The wire response a finished context yields: its response verbatim,
/// an unset body sent as empty.
pub open spec fn finalize_view(r: RespView) -> RespView {
    RespView {
        status: r.status,
        headers: r.headers,
        body: match r.body {
            Some(b) => Some(b),
            None => Some(Seq::empty()),
        },
    }
}

fn finalize<S>(data: PluginData<S>) -> (r: Response)
    ensures
        r@ == finalize_view(data@.response),
{
    let mut resp = data.response;
    if resp.body.is_none() {
        resp.body = Some(Vec::new());
        proof {
            assert(resp@.body->0 =~= Seq::<u8>::empty());
        }
    }
    resp
}

/// The context a request starts from: the shared component, the request
/// itself, the default response, and no session identity.
pub open spec fn initial_data<S>(shared: Arc<Shared<S>>, req: ReqView) -> DataView<S> {
    DataView { shared, request: req, response: default_response_view(), session_id: None }
}

/// The key minted for the next session plugin, when the oracle sequence
/// still has one.
pub open spec fn mint_head(mints: Seq<Result<Seq<char>, Seq<char>>>) -> Result<
    Seq<char>,
    Seq<char>,
> {
    if mints.len() == 0 {
        Err(Seq::empty())
    } else {
        mints.first()
    }
}

/// The oracle sequence after one session plugin consumed its head.
pub open spec fn mint_tail(mints: Seq<Result<Seq<char>, Seq<char>>>) -> Seq<
    Result<Seq<char>, Seq<char>>,
> {
    if mints.len() == 0 {
        mints
    } else {
        mints.drop_first()
    }
}

/// Running the chain from unit `i` on context `d`, given the oracle
/// `mints` of session-key outcomes: built-in units apply in order until
/// one needs outside work or fails, or the chain ends.
pub open spec fn advance_spec<S>(
    units: Seq<UnitView>,
    i: int,
    d: DataView<S>,
    mints: Seq<Result<Seq<char>, Seq<char>>>,
) -> ChainSpec<S>
    decreases units.len() - i,
{
    if i < 0 || i >= units.len() {
        ChainSpec {
            units,
            step: StepView::Done { response: finalize_view(d.response), error: None },
        }
    } else {
        match units[i] {
            UnitView::GoodCitizen(g) => advance_spec(units, i + 1, gc_apply(g, d), mints),
            UnitView::Session(s) => match session_apply(s, d, mint_head(mints)) {
                Ok(d2) => advance_spec(units, i + 1, d2, mint_tail(mints)),
                Err(m) => ChainSpec {
                    units,
                    step: StepView::Done { response: error_response_view(), error: Some(m) },
                },
            },
            UnitView::PageVisits(m) => advance_spec(
                units.update(i, UnitView::PageVisits(record_spec(m, d.request.path))),
                i + 1,
                d,
                mints,
            ),
            UnitView::Router(t) => match route_lookup(
                t,
                d.request.path,
                d.request.method.code_spec(),
            ) {
                Some(h) => ChainSpec {
                    units,
                    step: StepView::Run {
                        at: i,
                        reading_index: false,
                        task: TaskView::RunHandler(h),
                        data: d,
                    },
                },
                None => advance_spec(units, i + 1, d, mints),
            },
            UnitView::Htdocs(hv) => if d.request.method == Method::Get || d.request.method
                == Method::Head {
                ChainSpec {
                    units,
                    step: StepView::Run {
                        at: i,
                        reading_index: false,
                        task: TaskView::ReadFile(candidate_path(hv.docroot, d.request.path)),
                        data: d,
                    },
                }
            } else {
                advance_spec(units, i + 1, d, mints)
            },
            UnitView::External(id) => ChainSpec {
                units,
                step: StepView::Run {
                    at: i,
                    reading_index: false,
                    task: TaskView::RunPlugin(id),
                    data: d,
                },
            },
        }
    }
}

/// Whether `r` together with the units it left behind is a run of the
/// chain `units` from `i` on `d` under the oracle `mints`.
pub open spec fn advance_matches<S>(
    units: Seq<UnitView>,
    i: int,
    d: DataView<S>,
    mints: Seq<Result<Seq<char>, Seq<char>>>,
    units2: Seq<UnitView>,
    step: StepView<S>,
) -> bool {
    let cs = advance_spec(units, i, d, mints);
    units2 == cs.units && step == cs.step
}

/// Which events may resume a dispatch suspended at unit `at`: handler
/// and plugin outcomes at routing and external units, file outcomes at
/// a static-file unit, and a directory answer only to the first probe.
pub open spec fn event_fits<S>(
    units: Seq<UnitView>,
    at: int,
    reading_index: bool,
    ev: EventView<S>,
) -> bool {
    &&& 0 <= at < units.len()
    &&& match ev {
        EventView::Succeeded(_) => units[at] is Router || units[at] is External,
        EventView::Failed(_) => units[at] is Router || units[at] is External,
        EventView::File(f, _) => units[at] is Htdocs && (f is Directory ==> !reading_index),
    }
}

/// Resuming a suspended dispatch: a failure short-circuits the chain to
/// the fixed error response; success continues behind the suspended
/// unit; file outcomes first act on the context, a directory possibly
/// asking for one more read, of the index file.
pub open spec fn resume_spec<S>(
    units: Seq<UnitView>,
    at: int,
    reading_index: bool,
    ev: EventView<S>,
    mints: Seq<Result<Seq<char>, Seq<char>>>,
) -> ChainSpec<S> {
    match ev {
        EventView::Failed(m) => ChainSpec {
            units,
            step: StepView::Done { response: error_response_view(), error: Some(m) },
        },
        EventView::Succeeded(d) => advance_spec(units, at + 1, d, mints),
        EventView::File(f, d) => match f {
            FileView::Directory => {
                let hv = units[at]->Htdocs_0;
                match hv.index {
                    Some(idx) => ChainSpec {
                        units,
                        step: StepView::Run {
                            at,
                            reading_index: true,
                            task: TaskView::ReadFile(
                                candidate_path(hv.docroot, d.request.path) + "/"@ + idx,
                            ),
                            data: d,
                        },
                    },
                    None => advance_spec(units, at + 1, d, mints),
                }
            },
            _ => advance_spec(units, at + 1, file_apply(d, f), mints),
        },
    }
}

/// Whether `r` together with the units it left behind is a resumption
/// of the chain `units` at `at` under event `ev` and oracle `mints`.
pub open spec fn resume_matches<S>(
    units: Seq<UnitView>,
    at: int,
    reading_index: bool,
    ev: EventView<S>,
    mints: Seq<Result<Seq<char>, Seq<char>>>,
    units2: Seq<UnitView>,
    step: StepView<S>,
) -> bool {
    let cs = resume_spec(units, at, reading_index, ev, mints);
    units2 == cs.units && step == cs.step
}

/// A server instance: its configuration, the component shared by all
/// requests, and the plugin chain, fixed before serving begins.
pub struct Pemmican<S> {
    pub config: Config,
    pub shared: Arc<Shared<S>>,
    pub plugins: Vec<Plugin>,
}

/// Run the chain from unit `from`, applying built-in units until one
/// needs outside work, fails, or the chain ends.
fn advance<S>(plugins: &mut Vec<Plugin>, from: usize, data: PluginData<S>) -> (r: Step<S>)
    requires
        from <= old(plugins)@.len(),
    ensures
        exists|mints: Seq<Result<Seq<char>, Seq<char>>>|
            advance_matches(
                chain_view(old(plugins)@),
                from as int,
                data@,
                mints,
                chain_view(final(plugins)@),
                r@,
            ),
{
    let ghost dd = data@;
    let r = advance_loop(plugins, from, data, Ghost(dd));
    proof {
        let m = choose|m: Seq<Result<Seq<char>, Seq<char>>>|
            #[trigger] advance_matches(
                chain_view(old(plugins)@),
                from as int,
                dd,
                m,
                chain_view(plugins@),
                r@,
            );
        assert(exists|mints: Seq<Result<Seq<char>, Seq<char>>>|
            advance_matches(
                chain_view(old(plugins)@),
                from as int,
                dd,
                mints,
                chain_view(plugins@),
                r@,
            )) by {
            assert(advance_matches(
                chain_view(old(plugins)@),
                from as int,
                dd,
                m,
                chain_view(plugins@),
                r@,
            ));
        }
    }
    r
}

/// The chain loop behind `advance`; `d0` names the context it starts
/// from.
fn advance_loop<S>(
    plugins: &mut Vec<Plugin>,
    from: usize,
    data: PluginData<S>,
    Ghost(d0): Ghost<DataView<S>>,
) -> (r: Step<S>)
    requires
        from <= old(plugins)@.len(),
        d0 == data@,
    ensures
        exists|mints: Seq<Result<Seq<char>, Seq<char>>>|
            advance_matches(
                chain_view(old(plugins)@),
                from as int,
                d0,
                mints,
                chain_view(final(plugins)@),
                r@,
            ),
{
    let ghost units0 = chain_view(old(plugins)@);
    let ghost i0 = from as int;
    let mut i: usize = from;
    let mut data = data;
    let ghost mut acc: Seq<Result<Seq<char>, Seq<char>>> = Seq::empty();
    proof {
        assert forall|rest: Seq<Result<Seq<char>, Seq<char>>>|
            advance_spec(units0, i0, d0, acc + rest) == advance_spec(
                units0,
                i0,
                d0,
                rest,
            ) by {
            assert(acc + rest =~= rest);
        }
    }
    loop
        invariant
            from <= i <= plugins@.len(),
            plugins@.len() == units0.len(),
            units0 == chain_view(old(plugins)@),
            i0 == from as int,
            forall|rest: Seq<Result<Seq<char>, Seq<char>>>|
                advance_spec(units0, i0, d0, acc + rest) == advance_spec(
                    chain_view(plugins@),
                    i as int,
                    data@,
                    rest,
                ),
        decreases plugins@.len() - i,
    {
        if i >= plugins.len() {
            let ghost dv = data@;
            let ghost cur = chain_view(plugins@);
            let response = finalize(data);
            let r = Step::Done { response, error: None };
            proof {
                assert(acc + Seq::<Result<Seq<char>, Seq<char>>>::empty() =~= acc);
                assert(advance_spec(units0, i0, d0, acc) == advance_spec(
                    cur,
                    i as int,
                    dv,
                    Seq::<Result<Seq<char>, Seq<char>>>::empty(),
                ));
                assert(advance_matches(units0, i0, d0, acc, cur, r@));
                assert(exists|mints: Seq<Result<Seq<char>, Seq<char>>>|
                    advance_matches(units0, i0, d0, mints, cur, r@));
            }
            return r;
        }
        let ghost pre_vec = plugins@;
        let ghost pre_units = chain_view(plugins@);
        let ghost pre_d = data@;
        let unit = plugins.remove(i);
        proof {
            assert(unit@ == pre_units[i as int]);
        }
        match unit {
            Plugin::GoodCitizen(g) => {
                data = g.handle(data);
                plugins.insert(i, Plugin::GoodCitizen(g));
                proof {
                    lemma_put_back(pre_vec, plugins@, i as int);
                    assert(chain_view(plugins@) =~= pre_units);
                    assert forall|rest: Seq<Result<Seq<char>, Seq<char>>>|
                        advance_spec(units0, i0, d0, acc + rest) == advance_spec(
                            chain_view(plugins@),
                            i + 1,
                            data@,
                            rest,
                        ) by {
                        assert(advance_spec(units0, i0, d0, acc + rest) == advance_spec(
                            pre_units,
                            i as int,
                            pre_d,
                            rest,
                        ));
                    }
                }
                i = i + 1;
            },
            Plugin::Session(s) => {
                let res = s.handle(data);
                let ghost mint = choose|m: Result<Seq<char>, Seq<char>>|
                    crate::plugins::session::session_result_view(res) == session_apply(
                        s@,
                        pre_d,
                        m,
                    );
                plugins.insert(i, Plugin::Session(s));
                proof {
                    lemma_put_back(pre_vec, plugins@, i as int);
                    assert(chain_view(plugins@) =~= pre_units);
                }
                match res {
                    Ok(d2) => {
                        data = d2;
                        proof {
                            assert forall|rest: Seq<Result<Seq<char>, Seq<char>>>|
                                advance_spec(units0, i0, d0, acc.push(mint) + rest)
                                    == advance_spec(
                                    chain_view(plugins@),
                                    i + 1,
                                    data@,
                                    rest,
                                ) by {
                                assert(acc.push(mint) + rest =~= acc + (seq![mint] + rest));
                                assert(advance_spec(units0, i0, d0, acc + (seq![mint] + rest))
                                    == advance_spec(pre_units, i as int, pre_d, seq![mint] + rest));
                                assert((seq![mint] + rest).first() == mint);
                                assert(mint_head(seq![mint] + rest) == mint);
                                assert(mint_tail(seq![mint] + rest) =~= rest);
                                assert(session_apply(s@, pre_d, mint) == Ok::<
                                    DataView<S>,
                                    Seq<char>,
                                >(data@));
                            }
                            acc = acc.push(mint);
                        }
                        i = i + 1;
                    },
                    Err(m) => {
                        let ghost cur = chain_view(plugins@);
                        let ghost mv = m@;
                        let r = Step::Done { response: error_response(), error: Some(m) };
                        proof {
                            let mints = acc + seq![mint];
                            assert(advance_spec(units0, i0, d0, acc + seq![mint])
                                == advance_spec(pre_units, i as int, pre_d, seq![mint]));
                            assert(mint_head(seq![mint]) == mint);
                            assert(session_apply(s@, pre_d, mint) == Err::<
                                DataView<S>,
                                Seq<char>,
                            >(mv));
                            assert(advance_matches(units0, i0, d0, mints, cur, r@));
                assert(exists|mints: Seq<Result<Seq<char>, Seq<char>>>|
                    advance_matches(units0, i0, d0, mints, cur, r@));
                        }
                        return r;
                    },
                }
            },
            Plugin::PageVisits(mut pv) => {
                let ghost counts0 = pv.counts_view();
                pv.record(data.request.path.as_str());
                plugins.insert(i, Plugin::PageVisits(pv));
                proof {
                    lemma_put_back(pre_vec, plugins@, i as int);
                    assert(chain_view(plugins@) =~= pre_units.update(
                        i as int,
                        UnitView::PageVisits(record_spec(counts0, pre_d.request.path)),
                    ));
                    assert forall|rest: Seq<Result<Seq<char>, Seq<char>>>|
                        advance_spec(units0, i0, d0, acc + rest) == advance_spec(
                            chain_view(plugins@),
                            i + 1,
                            data@,
                            rest,
                        ) by {
                        assert(advance_spec(units0, i0, d0, acc + rest) == advance_spec(
                            pre_units,
                            i as int,
                            pre_d,
                            rest,
                        ));
                    }
                }
                i = i + 1;
            },
            Plugin::Router(rt) => {
                let found = rt.lookup(data.request.path.as_str(), data.request.method);
                plugins.insert(i, Plugin::Router(rt));
                proof {
                    lemma_put_back(pre_vec, plugins@, i as int);
                    assert(chain_view(plugins@) =~= pre_units);
                }
                match found {
                    Some(h) => {
                        let ghost cur = chain_view(plugins@);
                        let r = Step::Run {
                            pending: Pending { at: i, reading_index: false },
                            task: Task::RunHandler(h),
                            data,
                        };
                        proof {
                            assert(acc + Seq::<Result<Seq<char>, Seq<char>>>::empty() =~= acc);
                            assert(advance_spec(units0, i0, d0, acc) == advance_spec(
                                pre_units,
                                i as int,
                                pre_d,
                                Seq::<Result<Seq<char>, Seq<char>>>::empty(),
                            ));
                            assert(advance_matches(units0, i0, d0, acc, cur, r@));
                assert(exists|mints: Seq<Result<Seq<char>, Seq<char>>>|
                    advance_matches(units0, i0, d0, mints, cur, r@));
                        }
                        return r;
                    },
                    None => {
                        proof {
                            assert forall|rest: Seq<Result<Seq<char>, Seq<char>>>|
                                advance_spec(units0, i0, d0, acc + rest) == advance_spec(
                                    chain_view(plugins@),
                                    i + 1,
                                    data@,
                                    rest,
                                ) by {
                                assert(advance_spec(units0, i0, d0, acc + rest) == advance_spec(
                                    pre_units,
                                    i as int,
                                    pre_d,
                                    rest,
                                ));
                            }
                        }
                        i = i + 1;
                    },
                }
            },
            Plugin::Htdocs(h) => {
                let serve = matches!(data.request.method, Method::Get | Method::Head);
                if serve {
                    let path = h.candidate_file(data.request.path.as_str());
                    plugins.insert(i, Plugin::Htdocs(h));
                    let ghost cur = chain_view(plugins@);
                    let r = Step::Run {
                        pending: Pending { at: i, reading_index: false },
                        task: Task::ReadFile(path),
                        data,
                    };
                    proof {
                        lemma_put_back(pre_vec, plugins@, i as int);
                        assert(cur =~= pre_units);
                        assert(acc + Seq::<Result<Seq<char>, Seq<char>>>::empty() =~= acc);
                        assert(advance_spec(units0, i0, d0, acc) == advance_spec(
                            pre_units,
                            i as int,
                            pre_d,
                            Seq::<Result<Seq<char>, Seq<char>>>::empty(),
                        ));
                        assert(advance_matches(units0, i0, d0, acc, cur, r@));
                assert(exists|mints: Seq<Result<Seq<char>, Seq<char>>>|
                    advance_matches(units0, i0, d0, mints, cur, r@));
                    }
                    return r;
                } else {
                    plugins.insert(i, Plugin::Htdocs(h));
                    proof {
                        lemma_put_back(pre_vec, plugins@, i as int);
                        assert(chain_view(plugins@) =~= pre_units);
                        assert forall|rest: Seq<Result<Seq<char>, Seq<char>>>|
                            advance_spec(units0, i0, d0, acc + rest) == advance_spec(
                                chain_view(plugins@),
                                i + 1,
                                data@,
                                rest,
                            ) by {
                            assert(advance_spec(units0, i0, d0, acc + rest) == advance_spec(
                                pre_units,
                                i as int,
                                pre_d,
                                rest,
                            ));
                        }
                    }
                    i = i + 1;
                }
            },
            Plugin::External(id) => {
                plugins.insert(i, Plugin::External(id));
                let ghost cur = chain_view(plugins@);
                let r = Step::Run {
                    pending: Pending { at: i, reading_index: false },
                    task: Task::RunPlugin(id),
                    data,
                };
                proof {
                    lemma_put_back(pre_vec, plugins@, i as int);
                    assert(cur =~= pre_units);
                    assert(acc + Seq::<Result<Seq<char>, Seq<char>>>::empty() =~= acc);
                    assert(advance_spec(units0, i0, d0, acc) == advance_spec(
                        pre_units,
                        i as int,
                        pre_d,
                        Seq::<Result<Seq<char>, Seq<char>>>::empty(),
                    ));
                    assert(advance_matches(units0, i0, d0, acc, cur, r@));
                assert(exists|mints: Seq<Result<Seq<char>, Seq<char>>>|
                    advance_matches(units0, i0, d0, mints, cur, r@));
                }
                return r;
            },
        }
    }
}

/// Taking a unit out and putting one back in its place updates the
/// chain's view at that place alone.
proof fn lemma_put_back(pre_vec: Seq<Plugin>, now_vec: Seq<Plugin>, i: int)
    requires
        0 <= i < pre_vec.len(),
        now_vec == pre_vec.remove(i).insert(i, now_vec[i]),
    ensures
        chain_view(now_vec) =~= chain_view(pre_vec).update(i, now_vec[i]@),
{
    assert(now_vec =~= pre_vec.update(i, now_vec[i]));
}

impl<S> Pemmican<S> {
    /// Create a new server instance.  The chain and the shared state are
    /// fixed here, before serving begins.
    pub fn new(config: Config, plugins: Vec<Plugin>, initial_state: S) -> (p: Pemmican<S>)
        requires
            config.num_threads >= 1,
        ensures
            p.config == config,
            p.plugins == plugins,
            (*p.shared).state == initial_state,
            crate::shared::pool_thread_count((*p.shared).pool) == config.num_threads,
    {
        let num_threads = config.num_threads;
        Pemmican { config, plugins, shared: Arc::new(Shared::new(num_threads, initial_state)) }
    }

    /// Dispatch one request: build its context and run the chain until
    /// outside work is needed or the response is finished.
    pub fn call(&mut self, request: Request) -> (r: Step<S>)
        ensures
            final(self).config == old(self).config,
            final(self).shared == old(self).shared,
            exists|mints: Seq<Result<Seq<char>, Seq<char>>>|
                advance_matches(
                    chain_view(old(self).plugins@),
                    0,
                    initial_data(old(self).shared, request@),
                    mints,
                    chain_view(final(self).plugins@),
                    r@,
                ),
    {
        let ghost req = request@;
        let data = PluginData {
            shared: crate::shared::arc_dup(&self.shared),
            request,
            response: Response::new_default(),
            session_id: None,
        };
        let ghost dd = data@;
        let r = advance(&mut self.plugins, 0, data);
        proof {
            assert(dd == initial_data(old(self).shared, req));
            let m = choose|m: Seq<Result<Seq<char>, Seq<char>>>|
                #[trigger] advance_matches(
                    chain_view(old(self).plugins@),
                    0,
                    dd,
                    m,
                    chain_view(self.plugins@),
                    r@,
                );
            assert(exists|mints: Seq<Result<Seq<char>, Seq<char>>>|
                advance_matches(
                    chain_view(old(self).plugins@),
                    0,
                    initial_data(old(self).shared, req),
                    mints,
                    chain_view(self.plugins@),
                    r@,
                )) by {
                assert(advance_matches(
                    chain_view(old(self).plugins@),
                    0,
                    initial_data(old(self).shared, req),
                    m,
                    chain_view(self.plugins@),
                    r@,
                ));
            }
        }
        r
    }

    /// Resume a dispatch that was suspended for outside work, feeding in
    /// what that work came to.
    pub fn resume(&mut self, pending: Pending, event: Event<S>) -> (r: Step<S>)
        requires
            event_fits(
                chain_view(old(self).plugins@),
                pending.at as int,
                pending.reading_index,
                event@,
            ),
        ensures
            final(self).config == old(self).config,
            final(self).shared == old(self).shared,
            exists|mints: Seq<Result<Seq<char>, Seq<char>>>|
                resume_matches(
                    chain_view(old(self).plugins@),
                    pending.at as int,
                    pending.reading_index,
                    event@,
                    mints,
                    chain_view(final(self).plugins@),
                    r@,
                ),
    {
        let ghost units = chain_view(old(self).plugins@);
        let ghost ev = event@;
        let ghost at = pending.at as int;
        let ghost ri = pending.reading_index;
        let n = self.plugins.len();
        proof {
            assert(units.len() == n);
            assert(pending.at < n);
        }
        match event {
            Event::Failed(m) => {
                let r = Step::Done { response: error_response(), error: Some(m) };
                proof {
                    let mints = Seq::<Result<Seq<char>, Seq<char>>>::empty();
                    assert(exists|mints: Seq<Result<Seq<char>, Seq<char>>>|
                        resume_matches(units, at, ri, ev, mints, chain_view(self.plugins@), r@))
                        by {
                        assert(resume_matches(units, at, ri, ev, mints, units, r@));
                    }
                }
                r
            },
            Event::Succeeded(data) => {
                let ghost dd = data@;
                let r = advance(&mut self.plugins, pending.at + 1, data);
                proof {
                    let m = choose|m: Seq<Result<Seq<char>, Seq<char>>>|
                        #[trigger] advance_matches(units, at + 1, dd, m, chain_view(self.plugins@), r@);
                    assert(exists|mints: Seq<Result<Seq<char>, Seq<char>>>|
                        resume_matches(units, at, ri, ev, mints, chain_view(self.plugins@), r@))
                        by {
                        assert(resume_matches(units, at, ri, ev, m, chain_view(self.plugins@), r@));
                    }
                }
                r
            },
            Event::File(outcome, data) => match outcome {
                FileOutcome::Directory => {
                    let ghost dd = data@;
                    let index_path: Option<String> = match &self.plugins[pending.at] {
                        Plugin::Htdocs(h) => match h.index_name() {
                            Some(idx) => {
                                let mut p = h.candidate_file(data.request.path.as_str());
                                p.append("/");
                                p.append(idx.as_str());
                                Some(p)
                            },
                            None => None,
                        },
                        _ => {
                            proof {
                                assert(false);
                            }
                            None
                        },
                    };
                    match index_path {
                        Some(p) => {
                            let r = Step::Run {
                                pending: Pending { at: pending.at, reading_index: true },
                                task: Task::ReadFile(p),
                                data,
                            };
                            proof {
                                let mints = Seq::<Result<Seq<char>, Seq<char>>>::empty();
                                let hv = units[at]->Htdocs_0;
                                assert(p@ == candidate_path(hv.docroot, dd.request.path) + "/"@
                                    + hv.index->0);
                                assert(exists|mints: Seq<Result<Seq<char>, Seq<char>>>|
                                    resume_matches(
                                        units,
                                        at,
                                        ri,
                                        ev,
                                        mints,
                                        chain_view(self.plugins@),
                                        r@,
                                    )) by {
                                    assert(resume_matches(units, at, ri, ev, mints, units, r@));
                                }
                            }
                            r
                        },
                        None => {
                            let r = advance(&mut self.plugins, pending.at + 1, data);
                            proof {
                                let m = choose|m: Seq<Result<Seq<char>, Seq<char>>>|
                                    #[trigger] advance_matches(
                                        units,
                                        at + 1,
                                        dd,
                                        m,
                                        chain_view(self.plugins@),
                                        r@,
                                    );
                                assert(exists|mints: Seq<Result<Seq<char>, Seq<char>>>|
                                    resume_matches(
                                        units,
                                        at,
                                        ri,
                                        ev,
                                        mints,
                                        chain_view(self.plugins@),
                                        r@,
                                    )) by {
                                    assert(resume_matches(
                                        units,
                                        at,
                                        ri,
                                        ev,
                                        m,
                                        chain_view(self.plugins@),
                                        r@,
                                    ));
                                }
                            }
                            r
                        },
                    }
                },
                other => {
                    let ghost dd = data@;
                    let ghost fv = other@;
                    let d2 = crate::plugins::htdocs::apply_file(data, other);
                    let r = advance(&mut self.plugins, pending.at + 1, d2);
                    proof {
                        let m = choose|m: Seq<Result<Seq<char>, Seq<char>>>|
                            #[trigger] advance_matches(
                                units,
                                at + 1,
                                file_apply(dd, fv),
                                m,
                                chain_view(self.plugins@),
                                r@,
                            );
                        assert(exists|mints: Seq<Result<Seq<char>, Seq<char>>>|
                            resume_matches(units, at, ri, ev, mints, chain_view(self.plugins@), r@))
                            by {
                            assert(resume_matches(
                                units,
                                at,
                                ri,
                                ev,
                                m,
                                chain_view(self.plugins@),
                                r@,
                            ));
                        }
                    }
                    r
                },
            },
        }
    }
}

/// Law: dispatching a request whose path and method match no route
/// leaves the default response untouched: the client gets a 404 with an
/// empty body, and the router hands nothing to any handler.
pub proof fn lemma_unmatched_route_is_404<S>(
    table: Map<(Seq<char>, u8), u64>,
    shared: Arc<Shared<S>>,
    req: ReqView,
    mints: Seq<Result<Seq<char>, Seq<char>>>,
)
    requires
        route_lookup(table, req.path, req.method.code_spec()) is None,
    ensures
        ({
            let cs = advance_spec(
                seq![UnitView::Router(table)],
                0,
                initial_data(shared, req),
                mints,
            );
            &&& cs.units == seq![UnitView::Router(table)]
            &&& cs.step == StepView::Done::<S> {
                response: RespView {
                    status: message::STATUS_NOT_FOUND,
                    headers: Seq::empty(),
                    body: Some(Seq::empty()),
                },
                error: None,
            }
        }),
{
    let units = seq![UnitView::Router(table)];
    let d = initial_data(shared, req);
    assert(units[0] == UnitView::Router(table));
    assert(advance_spec(units, 0, d, mints) == advance_spec(units, 1, d, mints));
}

/// Law: an unmatched route is the normal branch, not an error: wherever
/// a routing unit stands in the chain, when its table has no entry for
/// the request's path and method it hands the context on untouched —
/// no handler task, no matched signal — and dispatch continues with the
/// unit behind it.
pub proof fn lemma_unmatched_router_passes_through<S>(
    units: Seq<UnitView>,
    i: int,
    d: DataView<S>,
    mints: Seq<Result<Seq<char>, Seq<char>>>,
)
    requires
        0 <= i < units.len(),
        units[i] is Router,
        route_lookup(units[i]->Router_0, d.request.path, d.request.method.code_spec()) is None,
    ensures
        advance_spec(units, i, d, mints) == advance_spec(units, i + 1, d, mints),
{
}

/// Law: when a handler or plugin fails, the chain short-circuits: no
/// plugin behind the failed one runs, the chain's state stays exactly
/// as it was, and the client receives the fixed 500 response with the
/// failure kept aside for the operator's log.
pub proof fn lemma_failure_short_circuit<S>(
    units: Seq<UnitView>,
    at: int,
    reading_index: bool,
    m: Seq<char>,
    mints: Seq<Result<Seq<char>, Seq<char>>>,
)
    ensures
        ({
            let cs = resume_spec::<S>(units, at, reading_index, EventView::Failed(m), mints);
            &&& cs.units == units
            &&& cs.step == StepView::Done::<S> {
                response: error_response_view(),
                error: Some(m),
            }
        }),
{
}

/// Law: one dispatch through the visit counter records exactly one
/// visit of the request's URI and passes the context on untouched, so
/// counting is per request, with no lost or doubled updates.
pub proof fn lemma_dispatch_counts_one_visit<S>(
    counts: Map<Seq<char>, u32>,
    shared: Arc<Shared<S>>,
    req: ReqView,
    mints: Seq<Result<Seq<char>, Seq<char>>>,
)
    ensures
        ({
            let cs = advance_spec(
                seq![UnitView::PageVisits(counts)],
                0,
                initial_data(shared, req),
                mints,
            );
            &&& cs.units == seq![UnitView::PageVisits(record_spec(counts, req.path))]
            &&& cs.step == StepView::Done::<S> {
                response: finalize_view(default_response_view()),
                error: None,
            }
        }),
{
    let units = seq![UnitView::PageVisits(counts)];
    let d = initial_data(shared, req);
    assert(units[0] == UnitView::PageVisits(counts));
    let units2 = units.update(0, UnitView::PageVisits(record_spec(counts, req.path)));
    assert(advance_spec(units, 0, d, mints) == advance_spec(units2, 1, d, mints));
    assert(units2 =~= seq![UnitView::PageVisits(record_spec(counts, req.path))]);
}

/// Law: a header-stamping plugin ahead of the router: the handler is
/// invoked on exactly the context the stamping produced, and so
/// observes the header that plugin set.
pub proof fn lemma_gc_precedes_handler<S>(
    g: crate::plugins::good_citizen::GcView,
    table: Map<(Seq<char>, u8), u64>,
    d: DataView<S>,
    mints: Seq<Result<Seq<char>, Seq<char>>>,
    h: u64,
)
    requires
        route_lookup(table, d.request.path, d.request.method.code_spec()) == Some(h),
        g.x_xss_protection is Some,
    ensures
        ({
            let d2 = gc_apply(g, d);
            &&& advance_spec(
                seq![UnitView::GoodCitizen(g), UnitView::Router(table)],
                0,
                d,
                mints,
            ).step == (StepView::Run::<S> {
                at: 1,
                reading_index: false,
                task: TaskView::RunHandler(h),
                data: d2,
            })
            &&& crate::message::lookup_header(d2.response.headers, "X-Xss-Protection"@) == Some(
                g.x_xss_protection->0,
            )
        }),
{
    let units = seq![UnitView::GoodCitizen(g), UnitView::Router(table)];
    let d2 = gc_apply(g, d);
    assert(units[0] == UnitView::GoodCitizen(g));
    assert(units[1] == UnitView::Router(table));
    assert(d2.request == d.request);
    assert(advance_spec(units, 0, d, mints) == advance_spec(units, 1, d2, mints));
    let h0 = d.response.headers;
    let h1 = match g.strict_transport_security {
        Some(s) => crate::message::with_header(
            h0,
            "Strict-Transport-Security"@,
            crate::plugins::good_citizen::sts_value(s),
        ),
        None => h0,
    };
    let h2 = match g.referrer_policy {
        Some(r) => crate::message::with_header(
            h1,
            "Referrer-Policy"@,
            crate::plugins::good_citizen::referrer_value(r),
        ),
        None => h1,
    };
    let h3 = match g.content_security_policy {
        Some(v) => crate::message::with_header(h2, "Content-Security-Policy"@, v),
        None => h2,
    };
    let h4 = match g.x_content_type_options {
        Some(v) => crate::message::with_header(h3, "X-Content-Type-Options"@, v),
        None => h3,
    };
    assert(d2.response.headers == crate::message::with_header(
        h4,
        "X-Xss-Protection"@,
        g.x_xss_protection->0,
    ));
    crate::message::lemma_lookup_after_set(h4, "X-Xss-Protection"@, g.x_xss_protection->0);
}

/// Law: with the session plugin registered ahead of the router, the
/// handler is invoked with exactly the context the session plugin
/// produced — a downstream unit observes upstream work.
pub proof fn lemma_session_precedes_handler<S>(
    s: SessView,
    table: Map<(Seq<char>, u8), u64>,
    d: DataView<S>,
    mints: Seq<Result<Seq<char>, Seq<char>>>,
    h: u64,
)
    requires
        mints.len() >= 1,
        session_apply(s, d, mints.first()) is Ok,
        route_lookup(table, d.request.path, d.request.method.code_spec()) == Some(h),
    ensures
        ({
            let d2 = session_apply(s, d, mints.first())->Ok_0;
            advance_spec(seq![UnitView::Session(s), UnitView::Router(table)], 0, d, mints).step
                == (StepView::Run::<S> {
                at: 1,
                reading_index: false,
                task: TaskView::RunHandler(h),
                data: d2,
            })
        }),
{
    let units = seq![UnitView::Session(s), UnitView::Router(table)];
    let d2 = session_apply(s, d, mints.first())->Ok_0;
    assert(units[0] == UnitView::Session(s));
    assert(units[1] == UnitView::Router(table));
    assert(mint_head(mints) == mints.first());
    assert(d2.request == d.request);
    assert(advance_spec(units, 0, d, mints) == advance_spec(units, 1, d2, mint_tail(mints)));
}

/// Law (negative control): with the router registered ahead of the
/// session plugin, the handler sees the context exactly as it arrived,
/// without any session identity: reversing registration order changes
/// what downstream observes.
pub proof fn lemma_router_precedes_session<S>(
    s: SessView,
    table: Map<(Seq<char>, u8), u64>,
    d: DataView<S>,
    mints: Seq<Result<Seq<char>, Seq<char>>>,
    h: u64,
)
    requires
        route_lookup(table, d.request.path, d.request.method.code_spec()) == Some(h),
    ensures
        advance_spec(seq![UnitView::Router(table), UnitView::Session(s)], 0, d, mints).step
            == (StepView::Run::<S> {
            at: 0,
            reading_index: false,
            task: TaskView::RunHandler(h),
            data: d,
        }),
{
    let units = seq![UnitView::Router(table), UnitView::Session(s)];
    assert(units[0] == UnitView::Router(table));
}

} // verus!
