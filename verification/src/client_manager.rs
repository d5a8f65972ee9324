//! The lifecycle coordinator: it knows which browser instances exist, owns
//! the coordinator-side router for as long as there is at least one, and
//! hands messages, navigations and terminations on to the router.
use vstd::prelude::*;
use crate::coordinator_router::{
    lemma_cancel_selected, CoordinatorSideRouter, CoordinatorState, MessageRouterConfig, Routing,
    RoutingView, DEFAULT_CHANNEL_NAME,
};
use crate::dispatcher::{Dispatch, ThreadAffinityDispatcher, ThreadId};
use crate::handler_registry::{Frame, FrameView, QueryReply, QueryReplyView};
use crate::ids::{BrowserRef, ContextRef, HandlerId, QueryId};
use crate::message_handler::{MessageHandler, TEST_MESSAGE_PREFIX};
use crate::messages::{ReplyMessage, ReplyMessageView, WireMessage, WireMessageView};
use crate::query_registry::{lemma_filter_all, PendingQuery, RegistryState, Selection, Selector};
use crate::resource_util::{get_resource_path, resource_path};

verus! {

/// One browser instance, and the frames of it that have sent messages.
#[derive(Clone, Debug, PartialEq, Eq)]
pub struct BrowserRecord {
    pub browser_ref: BrowserRef,
    pub frame_refs: Vec<ContextRef>,
}

/// A browser record, in contracts.
pub struct BrowserRecordView {
    pub browser_ref: BrowserRef,
    pub frame_refs: Seq<ContextRef>,
}

impl View for BrowserRecord {
    type V = BrowserRecordView;

    open spec fn view(&self) -> BrowserRecordView {
        BrowserRecordView { browser_ref: self.browser_ref, frame_refs: self.frame_refs@ }
    }
}

/// Work that the coordinator posts to the UI thread when it is called from
/// another thread.
#[derive(Clone, Copy, Debug, PartialEq, Eq, Structural)]
pub enum Task {
    ShowMainWindow,
    CloseAllBrowsers { force_close: bool },
}

/// The process that a message comes from.
#[derive(Clone, Copy, Debug, PartialEq, Eq, Structural)]
pub enum ProcessId {
    Browser,
    Renderer,
}

/// What the window layer finds when it looks for the view of a browser.
#[derive(Clone, Copy, Debug, PartialEq, Eq, Structural)]
pub enum ViewPresence {
    /// The browser has no view: it lives in a native window.
    NoView,
    /// The browser has a view that is in no window.
    ViewWithoutWindow,
    /// The browser has a view, in a window.
    ViewInWindow,
}

/// Which window a change is to be made to.
#[derive(Clone, Copy, Debug, PartialEq, Eq, Structural)]
pub enum WindowTarget {
    /// The window of the browser's view.
    ViewWindow,
    /// The native window, by the platform's own means.
    PlatformWindow,
    /// None.
    NoWindow,
}

/// The window that a change goes to, by what the window layer found.
pub open spec fn window_target(presence: ViewPresence) -> WindowTarget {
    match presence {
        ViewPresence::ViewInWindow => WindowTarget::ViewWindow,
        ViewPresence::ViewWithoutWindow => WindowTarget::NoWindow,
        ViewPresence::NoView => WindowTarget::PlatformWindow,
    }
}

/// What is to be done to show the main window.
#[derive(Clone, Copy, Debug, PartialEq, Eq, Structural)]
pub enum ShowMainWindow {
    /// The call came from another thread: it was posted to the UI thread, or
    /// dropped where that thread has shut down.
    Deferred { posted: bool },
    /// The window of this browser, the first in the list, is to be shown.
    Show(BrowserRef),
    /// There is no browser.
    NoBrowser,
}

/// What is to be done to close all browsers.
#[derive(Clone, Debug, PartialEq, Eq)]
pub enum CloseAllBrowsers {
    /// The call came from another thread: it was posted to the UI thread, or
    /// dropped where that thread has shut down.
    Deferred { posted: bool },
    /// Each of these browsers is to be asked to close.
    Close { browsers: Vec<BrowserRef>, force_close: bool },
}

/// What the destruction of a browser instance brought about.
#[derive(Clone, Debug, PartialEq, Eq)]
pub struct Destroyed {
    /// The queries that were cancelled, each one's handler told, oldest first.
    pub cancelled: Vec<PendingQuery>,
    /// Whether no browser is left, so that the application is to shut down.
    pub quit: bool,
}

/// What a navigation brought about.
#[derive(Clone, Debug, PartialEq, Eq)]
pub struct Navigation {
    /// Whether the navigation is to be stopped: never.
    pub cancel_navigation: bool,
    /// The queries of the frame that were cancelled, oldest first.
    pub cancelled: Vec<PendingQuery>,
}

/// The model of the coordinator.
pub struct ManagerState {
    pub startup_url: Seq<char>,
    /// How many browser instances are active.
    pub browser_ct: nat,
    pub router: Option<CoordinatorState<MessageHandler>>,
    /// The id under which the application's handler is registered.
    pub handler_id: Option<HandlerId>,
    /// The records of the browser instances, oldest first.
    pub browsers: Seq<BrowserRecordView>,
    pub is_closing: bool,
}

/// The position of the first record of `browser` from position `from` on.
pub open spec fn record_from(browsers: Seq<BrowserRecordView>, browser: BrowserRef, from: int)
    -> Option<int>
    decreases browsers.len() - from,
{
    if from < 0 || from >= browsers.len() {
        None
    } else if browsers[from].browser_ref == browser {
        Some(from)
    } else {
        record_from(browsers, browser, from + 1)
    }
}

/// The first record of a browser is a record of it, and none before it is.
pub proof fn lemma_record_from(browsers: Seq<BrowserRecordView>, browser: BrowserRef, from: int)
    requires
        0 <= from <= browsers.len(),
    ensures
        match record_from(browsers, browser, from) {
            Some(i) => from <= i < browsers.len() && browsers[i].browser_ref == browser
                && forall|k: int| from <= k < i ==> browsers[k].browser_ref != browser,
            None => forall|k: int|
                from <= k < browsers.len() ==> browsers[k].browser_ref != browser,
        },
    decreases browsers.len() - from,
{
    if from < browsers.len() && browsers[from].browser_ref != browser {
        lemma_record_from(browsers, browser, from + 1);
    }
}

impl ManagerState {
    /// The coordinator before any browser instance exists.
    pub open spec fn init(startup_url: Seq<char>) -> ManagerState {
        ManagerState {
            startup_url,
            browser_ct: 0,
            router: None,
            handler_id: None,
            browsers: Seq::empty(),
            is_closing: false,
        }
    }

    /// The router exists exactly while a browser instance is active. While it
    /// exists it is well-formed and the application's handler is registered
    /// with it, under the id that the coordinator keeps.
    pub open spec fn wf(self) -> bool {
        &&& self.router is Some <==> self.browser_ct > 0
        &&& self.handler_id is Some <==> self.router is Some
        &&& self.router matches Some(r) ==> r.wf() && r.handlers.has(self.handler_id->0)
    }

    /// The position of the first record of `browser`.
    pub open spec fn record_of(self, browser: Option<BrowserRef>) -> Option<int> {
        match browser {
            Some(b) => record_from(self.browsers, b, 0),
            None => None,
        }
    }

    /// The frames noted for `browser`: those of its first record.
    pub open spec fn frames_of(self, browser: Option<BrowserRef>) -> Seq<ContextRef> {
        match self.record_of(browser) {
            Some(i) => self.browsers[i].frame_refs,
            None => Seq::empty(),
        }
    }

    /// `router` is a router as the coordinator makes it: on the default
    /// channel, without queries, and with the application's handler for the
    /// startup URL as its only handler, registered under `id`.
    pub open spec fn is_fresh_router(
        self,
        router: CoordinatorState<MessageHandler>,
        id: HandlerId,
    ) -> bool {
        &&& router.channel_name == DEFAULT_CHANNEL_NAME@
        &&& router.queries == RegistryState::empty()
        &&& router.handlers.last_token == 1
        &&& router.handlers.entries.len() == 1
        &&& router.handlers.entries[0].id == id
        &&& id == HandlerId { token: 1 }
        &&& !router.handlers.entries[0].inform_all_queries
        &&& router.handlers.entries[0].handler.startup_url_view() == self.startup_url
        &&& router.handlers.entries[0].handler.prefix_view() == TEST_MESSAGE_PREFIX@
    }

    /// `next` is the coordinator after a browser instance was created: the
    /// count is one more, the record is appended, and the router is the one
    /// that was there, or a fresh one where there was none.
    pub open spec fn created(self, browser: Option<BrowserRef>, next: ManagerState) -> bool {
        &&& next.startup_url == self.startup_url
        &&& next.is_closing == self.is_closing
        &&& next.browser_ct == self.browser_ct + 1
        &&& next.browsers == match browser {
            Some(b) => self.browsers.push(
                BrowserRecordView { browser_ref: b, frame_refs: Seq::empty() },
            ),
            None => self.browsers,
        }
        &&& match self.router {
            Some(r) => next.router == Some(r) && next.handler_id == self.handler_id,
            None => next.router matches Some(r) && next.handler_id matches Some(id)
                && self.is_fresh_router(r, id),
        }
    }

    /// The coordinator after a browser instance said that it is closing: the
    /// closing flag is set where this is the only record.
    pub open spec fn closing(self) -> ManagerState {
        ManagerState { is_closing: self.is_closing || self.browsers.len() == 1, ..self }
    }

    /// The coordinator after a browser instance was destroyed, with the
    /// queries that were cancelled and whether the application is to quit.
    ///
    /// The count is one less. At zero the router is torn down: every query is
    /// cancelled and the router is gone. Else the queries of the frames noted
    /// for the browser are cancelled. The first record of the browser is
    /// removed; the application quits where no record is left.
    pub open spec fn destroyed(self, browser: Option<BrowserRef>) -> (
        ManagerState,
        Seq<PendingQuery>,
        bool,
    ) {
        let ct = (self.browser_ct - 1) as nat;
        let browsers = match self.record_of(browser) {
            Some(i) => self.browsers.remove(i),
            None => self.browsers,
        };
        let (router, cancelled) = match self.router {
            Some(r) => if ct == 0 {
                (None, r.cancel_selected(Selection::All).1)
            } else {
                (
                    Some(r.cancel_selected(Selection::Contexts(self.frames_of(browser))).0),
                    r.cancel_selected(Selection::Contexts(self.frames_of(browser))).1,
                )
            },
            None => (None, Seq::empty()),
        };
        (
            ManagerState {
                browser_ct: ct,
                router,
                handler_id: if ct == 0 {
                    None
                } else {
                    self.handler_id
                },
                browsers,
                ..self
            },
            cancelled,
            browsers.len() == 0,
        )
    }

    /// The coordinator after a frame began to load another document, with the
    /// queries of that frame, which were cancelled.
    pub open spec fn navigated(self, frame: Option<ContextRef>) -> (
        ManagerState,
        Seq<PendingQuery>,
    ) {
        match (self.router, frame) {
            (Some(r), Some(f)) => (
                ManagerState { router: Some(r.cancel_selected(Selection::Context(f)).0), ..self },
                r.cancel_selected(Selection::Context(f)).1,
            ),
            _ => (self, Seq::empty()),
        }
    }

    /// The coordinator after the renderer process of a browser terminated,
    /// with the queries of the frames noted for that browser, which were
    /// cancelled.
    pub open spec fn terminated(self, browser: Option<BrowserRef>) -> (
        ManagerState,
        Seq<PendingQuery>,
    ) {
        match self.router {
            Some(r) => (
                ManagerState {
                    router: Some(
                        r.cancel_selected(Selection::Contexts(self.frames_of(browser))).0,
                    ),
                    ..self
                },
                r.cancel_selected(Selection::Contexts(self.frames_of(browser))).1,
            ),
            None => (self, Seq::empty()),
        }
    }

    /// The coordinator after the application replied to the query `id` of
    /// `context`, with the reply message to send. Without a router, or for a
    /// query that is not outstanding, nothing changes and there is no message.
    pub open spec fn replied(self, context: ContextRef, id: QueryId, reply: QueryReplyView) -> (
        ManagerState,
        Option<ReplyMessageView>,
    ) {
        match self.router {
            Some(r) => (
                ManagerState { router: Some(r.answer(context, id, reply).0), ..self },
                r.answer(context, id, reply).1,
            ),
            None => (self, None),
        }
    }

    /// The records after a message from `frame` of `browser` was consumed:
    /// the frame is noted in the first record of the browser, unless it is
    /// noted there already or the browser has no record.
    pub open spec fn note_frame(self, browser: BrowserRef, frame: ContextRef) -> Seq<
        BrowserRecordView,
    > {
        match record_from(self.browsers, browser, 0) {
            Some(i) => if self.browsers[i].frame_refs.contains(frame) {
                self.browsers
            } else {
                self.browsers.update(
                    i,
                    BrowserRecordView {
                        browser_ref: browser,
                        frame_refs: self.browsers[i].frame_refs.push(frame),
                    },
                )
            },
            None => self.browsers,
        }
    }

    /// The coordinator after a message came in, and what the router did with
    /// it. Without a router, a browser, a frame or a message, nothing happens
    /// and the message is not consumed.
    pub open spec fn routed(
        self,
        browser: Option<BrowserRef>,
        frame: Option<FrameView>,
        message: Option<WireMessageView>,
    ) -> (ManagerState, RoutingView) {
        match (self.router, browser, frame, message) {
            (Some(r), Some(b), Some(f), Some(m)) => {
                let (router, routing) = r.receive(b, f, m);
                (
                    ManagerState {
                        router: Some(router),
                        browsers: if routing is NotMine {
                            self.browsers
                        } else {
                            self.note_frame(b, f.id)
                        },
                        ..self
                    },
                    routing,
                )
            },
            _ => (self, RoutingView::NotMine),
        }
    }
}

/// The lifecycle coordinator.
pub struct ClientManager {
    startup_url: String,
    browser_ct: usize,
    message_router: Option<CoordinatorSideRouter<MessageHandler>>,
    message_handler_id: Option<HandlerId>,
    browser_list: Vec<BrowserRecord>,
    is_closing: bool,
}

impl View for ClientManager {
    type V = ManagerState;

    closed spec fn view(&self) -> ManagerState {
        ManagerState {
            startup_url: self.startup_url@,
            browser_ct: self.browser_ct as nat,
            router: match self.message_router {
                Some(r) => Some(r@),
                None => None,
            },
            handler_id: self.message_handler_id,
            browsers: self.browser_list@.map_values(|r: BrowserRecord| r@),
            is_closing: self.is_closing,
        }
    }
}

impl ClientManager {
    /// The coordinator's invariant: that of its model, and a count that the
    /// machine can hold.
    pub open spec fn wf(&self) -> bool {
        self@.wf() && self@.browser_ct <= usize::MAX
    }

    /// A coordinator for an application that starts at `startup_url`: no
    /// browser instance, no router, not closing.
    pub fn new(startup_url: String) -> (r: ClientManager)
        ensures
            r.wf(),
            r@ == ManagerState::init(startup_url@),
    {
        let r = ClientManager {
            startup_url,
            browser_ct: 0,
            message_router: None,
            message_handler_id: None,
            browser_list: Vec::new(),
            is_closing: false,
        };
        assert(r@.browsers =~= Seq::empty());
        r
    }

    /// Whether the last browser instance has begun to close.
    pub fn is_closing(&self) -> (r: bool)
        ensures
            r == self@.is_closing,
    {
        self.is_closing
    }

    /// How many browser instances are active.
    pub fn browser_count(&self) -> (r: usize)
        ensures
            r == self@.browser_ct,
    {
        self.browser_ct
    }

    /// Whether the router exists.
    pub fn has_router(&self) -> (r: bool)
        ensures
            r == self@.router is Some,
    {
        self.message_router.is_some()
    }

    /// The id under which the application's handler is registered, while the
    /// router exists.
    pub fn message_handler_id(&self) -> (r: Option<HandlerId>)
        ensures
            r == self@.handler_id,
    {
        self.message_handler_id
    }

    /// How many queries the router holds; 0 without a router.
    pub fn pending_queries(&self) -> (r: usize)
        ensures
            r == match self@.router {
                Some(router) => router.queries.pending.len(),
                None => 0,
            },
    {
        match &self.message_router {
            Some(router) => router.pending_count(),
            None => 0,
        }
    }

    /// Makes the router and registers the application's handler with it. A
    /// router is never made while one exists: that would break the tie
    /// between the router and the browser instances.
    fn create_router(&mut self)
        requires
            old(self)@.router is None,
        ensures
            final(self)@.router matches Some(r) && final(self)@.handler_id matches Some(id)
                && old(self)@.is_fresh_router(r, id) && r.wf() && r.handlers.has(id),
            final(self)@ == (ManagerState {
                router: final(self)@.router,
                handler_id: final(self)@.handler_id,
                ..old(self)@
            }),
    {
        let mut router = CoordinatorSideRouter::new(MessageRouterConfig::default());
        let handler = MessageHandler::new(self.startup_url.clone());
        let id = router.add_handler(handler, false);
        assert(router@.handlers.entries[0].id == id);
        self.message_router = Some(router);
        self.message_handler_id = Some(id);
    }

    /// A browser instance was created.
    ///
    /// Where no router exists, one is made and the application's handler is
    /// registered with it; a router that exists is kept as it is. The count
    /// of active instances goes up by one, and the instance's record is
    /// appended.
    pub fn on_after_created(&mut self, current: ThreadId, browser: Option<BrowserRef>)
        requires
            current == ThreadId::UI,
            old(self).wf(),
            old(self)@.browser_ct < usize::MAX,
        ensures
            final(self).wf(),
            old(self)@.created(browser, final(self)@),
    {
        if self.message_router.is_none() {
            self.create_router();
        }
        self.browser_ct += 1;
        if let Some(b) = browser {
            self.browser_list.push(BrowserRecord { browser_ref: b, frame_refs: Vec::new() });
            assert(self@.browsers =~= old(self)@.browsers.push(
                BrowserRecordView { browser_ref: b, frame_refs: Seq::empty() },
            ));
        }
    }

    /// A browser instance is about to close. Where it is the only one that
    /// has a record, the closing flag is set. Returns 0: the close is allowed
    /// to go on, and the window layer may still veto it.
    pub fn do_close(&mut self, current: ThreadId, browser: Option<BrowserRef>) -> (r: i32)
        requires
            current == ThreadId::UI,
            old(self).wf(),
        ensures
            final(self).wf(),
            final(self)@ == old(self)@.closing(),
            r == 0,
    {
        if self.browser_list.len() == 1 {
            self.is_closing = true;
        }
        0
    }

    /// The position of the first record of `browser`.
    fn find_record(&self, browser: BrowserRef) -> (r: Option<usize>)
        ensures
            match r {
                Some(i) => record_from(self@.browsers, browser, 0) == Some(i as int) && i
                    < self.browser_list.len(),
                None => record_from(self@.browsers, browser, 0) is None,
            },
    {
        let mut i: usize = 0;
        proof {
            lemma_record_from(self@.browsers, browser, 0);
        }
        while i < self.browser_list.len()
            invariant
                i <= self.browser_list.len(),
                self@.browsers.len() == self.browser_list.len(),
                record_from(self@.browsers, browser, 0) == record_from(
                    self@.browsers,
                    browser,
                    i as int,
                ),
            decreases self.browser_list.len() - i,
        {
            assert(self@.browsers[i as int] == self.browser_list@[i as int]@);
            if self.browser_list[i].browser_ref == browser {
                return Some(i);
            }
            i += 1;
        }
        None
    }

    /// The frames noted for `browser`.
    fn frames_of(&self, browser: Option<BrowserRef>) -> (r: Vec<ContextRef>)
        ensures
            r@ == self@.frames_of(browser),
    {
        let mut frames: Vec<ContextRef> = Vec::new();
        if let Some(b) = browser {
            if let Some(i) = self.find_record(b) {
                assert(self@.browsers[i as int] == self.browser_list@[i as int]@);
                let noted = &self.browser_list[i].frame_refs;
                let mut k: usize = 0;
                while k < noted.len()
                    invariant
                        k <= noted.len(),
                        frames@ == noted@.take(k as int),
                    decreases noted.len() - k,
                {
                    frames.push(noted[k]);
                    assert(frames@ =~= noted@.take(k + 1));
                    k += 1;
                }
                assert(noted@.take(k as int) =~= noted@);
            }
        }
        frames
    }

    /// Whether `frame` is noted in the record at position `i`.
    fn lists_frame(&self, i: usize, frame: ContextRef) -> (r: bool)
        requires
            i < self.browser_list.len(),
        ensures
            r == self.browser_list@[i as int].frame_refs@.contains(frame),
    {
        let noted = &self.browser_list[i].frame_refs;
        let mut k: usize = 0;
        while k < noted.len()
            invariant
                k <= noted.len(),
                i < self.browser_list.len(),
                noted@ == self.browser_list@[i as int].frame_refs@,
                forall|j: int| 0 <= j < k ==> noted@[j] != frame,
            decreases noted.len() - k,
        {
            if noted[k] == frame {
                assert(noted@[k as int] == frame);
                return true;
            }
            k += 1;
        }
        false
    }

    /// Notes `frame` in the first record of `browser`.
    fn note_frame(&mut self, browser: BrowserRef, frame: ContextRef)
        ensures
            final(self)@ == (ManagerState {
                browsers: old(self)@.note_frame(browser, frame),
                ..old(self)@
            }),
    {
        if let Some(i) = self.find_record(browser) {
            proof {
                lemma_record_from(self@.browsers, browser, 0);
            }
            assert(self@.browsers[i as int] == self.browser_list@[i as int]@);
            if self.lists_frame(i, frame) {
                assert(self@.browsers =~= old(self)@.browsers);
                return ;
            }
            let mut record = self.browser_list.remove(i);
            record.frame_refs.push(frame);
            self.browser_list.insert(i, record);
            assert(self.browser_list@ =~= old(self).browser_list@.update(i as int, record));
            assert(self@.browsers =~= old(self)@.note_frame(browser, frame));
        } else {
            assert(self@.browsers =~= old(self)@.browsers);
        }
    }

    /// Shows the main window: the window of the first browser in the list.
    ///
    /// Called on the UI thread, names the browser whose window is to be
    /// shown. Called on any other thread, posts itself to the UI thread and
    /// returns.
    pub fn show_main_window(
        &self,
        current: ThreadId,
        dispatcher: &mut ThreadAffinityDispatcher<Task>,
    ) -> (r: ShowMainWindow)
        ensures
            current == ThreadId::UI ==> final(dispatcher)@ == old(dispatcher)@ && r == (
            if self@.browsers.len() > 0 {
                ShowMainWindow::Show(self@.browsers[0].browser_ref)
            } else {
                ShowMainWindow::NoBrowser
            }),
            current != ThreadId::UI ==> final(dispatcher)@ == old(dispatcher)@.run_on(
                current,
                ThreadId::UI,
                Task::ShowMainWindow,
            ).0 && r == (ShowMainWindow::Deferred {
                posted: !old(dispatcher)@.lane(ThreadId::UI).shut_down,
            }),
    {
        if current != ThreadId::UI {
            return match dispatcher.run_on(current, ThreadId::UI, Task::ShowMainWindow) {
                Dispatch::Posted => ShowMainWindow::Deferred { posted: true },
                _ => ShowMainWindow::Deferred { posted: false },
            };
        }
        if self.browser_list.len() > 0 {
            assert(self@.browsers[0] == self.browser_list@[0]@);
            ShowMainWindow::Show(self.browser_list[0].browser_ref)
        } else {
            ShowMainWindow::NoBrowser
        }
    }

    /// Closes all browsers.
    ///
    /// Called on the UI thread, names the browsers that are to be asked to
    /// close, in the order of the list, and hands `force_close` on. Called on
    /// any other thread, posts itself to the UI thread and returns.
    pub fn close_all_browsers(
        &self,
        current: ThreadId,
        dispatcher: &mut ThreadAffinityDispatcher<Task>,
        force_close: bool,
    ) -> (r: CloseAllBrowsers)
        ensures
            current == ThreadId::UI ==> {
                &&& final(dispatcher)@ == old(dispatcher)@
                &&& r matches CloseAllBrowsers::Close { browsers, force_close: f }
                &&& f == force_close
                &&& browsers@ == self@.browsers.map_values(|b: BrowserRecordView| b.browser_ref)
            },
            current != ThreadId::UI ==> {
                &&& final(dispatcher)@ == old(dispatcher)@.run_on(
                    current,
                    ThreadId::UI,
                    (Task::CloseAllBrowsers { force_close }),
                ).0
                &&& r matches CloseAllBrowsers::Deferred { posted }
                &&& posted == !old(dispatcher)@.lane(ThreadId::UI).shut_down
            },
    {
        if current != ThreadId::UI {
            return match dispatcher.run_on(
                current,
                ThreadId::UI,
                Task::CloseAllBrowsers { force_close },
            ) {
                Dispatch::Posted => CloseAllBrowsers::Deferred { posted: true },
                _ => CloseAllBrowsers::Deferred { posted: false },
            };
        }
        let mut browsers: Vec<BrowserRef> = Vec::new();
        let mut i: usize = 0;
        let ghost all = self@.browsers.map_values(|b: BrowserRecordView| b.browser_ref);
        while i < self.browser_list.len()
            invariant
                i <= self.browser_list.len(),
                all == self@.browsers.map_values(|b: BrowserRecordView| b.browser_ref),
                all.len() == self.browser_list.len(),
                browsers@ == all.take(i as int),
            decreases self.browser_list.len() - i,
        {
            assert(self@.browsers[i as int] == self.browser_list@[i as int]@);
            browsers.push(self.browser_list[i].browser_ref);
            assert(browsers@ =~= all.take(i + 1));
            i += 1;
        }
        assert(all.take(i as int) =~= all);
        CloseAllBrowsers::Close { browsers, force_close }
    }

    /// The title of a browser's page changed. Says which window is to get the
    /// title, by what the window layer found for the browser: the window of
    /// its view, or its native window where it has no view.
    pub fn on_title_change(
        &self,
        current: ThreadId,
        browser: Option<BrowserRef>,
        presence: ViewPresence,
    ) -> (r: WindowTarget)
        requires
            current == ThreadId::UI,
        ensures
            r == window_target(presence),
    {
        match presence {
            ViewPresence::ViewInWindow => WindowTarget::ViewWindow,
            ViewPresence::ViewWithoutWindow => WindowTarget::NoWindow,
            ViewPresence::NoView => WindowTarget::PlatformWindow,
        }
    }

    /// A message came in from `frame` of `browser`.
    ///
    /// Hands the message to the router where there is one, and gives what the
    /// router did with it; the caller learns from it whether the message was
    /// consumed. The frame of a consumed message is noted in the browser's
    /// record. Without a router, or with the browser, the frame or the message
    /// missing, the message is not consumed and nothing changes.
    pub fn on_process_message_received(
        &mut self,
        current: ThreadId,
        browser: Option<BrowserRef>,
        frame: Option<Frame>,
        source_process: ProcessId,
        message: Option<WireMessage>,
    ) -> (r: Routing)
        requires
            current == ThreadId::UI,
            old(self).wf(),
        ensures
            final(self).wf(),
            (final(self)@, r@) == old(self)@.routed(
                browser,
                match frame {
                    Some(f) => Some(f@),
                    None => None,
                },
                match message {
                    Some(m) => Some(m@),
                    None => None,
                },
            ),
    {
        match self.message_router.take() {
            None => Routing::NotMine,
            Some(mut router) => {
                match (browser, frame, message) {
                    (Some(b), Some(f), Some(m)) => {
                        let routing = router.on_process_message_received(b, &f, m);
                        self.message_router = Some(router);
                        if routing.consumed() {
                            self.note_frame(b, f.id);
                        }
                        assert(self@.browsers =~= old(self)@.routed(
                            Some(b),
                            Some(f@),
                            Some(m@),
                        ).0.browsers);
                        routing
                    },
                    _ => {
                        self.message_router = Some(router);
                        Routing::NotMine
                    },
                }
            },
        }
    }

    /// The application replies to the query `query_id` of `context`, which its
    /// handler claimed. Gives the reply message to send. A reply to a query
    /// that is not outstanding, because it was cancelled or has had its last
    /// reply, and a reply without a router, give no message and change
    /// nothing.
    pub fn reply(
        &mut self,
        current: ThreadId,
        context: ContextRef,
        query_id: QueryId,
        reply: QueryReply,
    ) -> (r: Option<ReplyMessage>)
        requires
            current == ThreadId::UI,
            old(self).wf(),
        ensures
            final(self).wf(),
            final(self)@ == old(self)@.replied(context, query_id, reply@).0,
            match old(self)@.replied(context, query_id, reply@).1 {
                Some(m) => r matches Some(message) && message@ == m,
                None => r is None,
            },
    {
        match self.message_router.take() {
            Some(mut router) => {
                let message = router.reply(context, query_id, reply);
                self.message_router = Some(router);
                message
            },
            None => None,
        }
    }

    /// A browser instance was destroyed.
    ///
    /// The count of active instances goes down by one. At zero the router is
    /// torn down: every query that is still outstanding is cancelled, its
    /// handler told, the application's handler is deregistered, and the
    /// router is gone. Above zero the queries of the frames noted for the
    /// browser are cancelled. The browser's first record is removed; where no
    /// record is left, the application is to quit.
    pub fn on_before_close(&mut self, current: ThreadId, browser: Option<BrowserRef>) -> (r:
        Destroyed)
        requires
            current == ThreadId::UI,
            old(self).wf(),
            old(self)@.browser_ct > 0,
        ensures
            final(self).wf(),
            (final(self)@, r.cancelled@, r.quit) == old(self)@.destroyed(browser),
    {
        let frames = self.frames_of(browser);
        self.browser_ct -= 1;
        let cancelled = match self.message_router.take() {
            Some(mut router) => {
                if self.browser_ct == 0 {
                    let cancelled = router.cancel_everything();
                    if let Some(id) = self.message_handler_id.take() {
                        let _ = router.remove_handler(id);
                    }
                    cancelled
                } else {
                    let cancelled = router.cancel_pending(&Selector::Contexts(frames));
                    self.message_router = Some(router);
                    cancelled
                }
            },
            None => Vec::new(),
        };
        if let Some(b) = browser {
            if let Some(i) = self.find_record(b) {
                self.browser_list.remove(i);
                assert(self@.browsers =~= old(self)@.browsers.remove(i as int));
            }
        }
        let quit = self.browser_list.len() == 0;
        Destroyed { cancelled, quit }
    }

    /// A frame is about to load another document: the queries of that frame
    /// are cancelled and their handlers told, before this returns. The
    /// navigation itself is never stopped.
    pub fn on_before_browse(
        &mut self,
        current: ThreadId,
        browser: Option<BrowserRef>,
        frame: Option<ContextRef>,
    ) -> (r: Navigation)
        requires
            current == ThreadId::UI,
            old(self).wf(),
        ensures
            final(self).wf(),
            (final(self)@, r.cancelled@) == old(self)@.navigated(frame),
            !r.cancel_navigation,
    {
        let cancelled = match (self.message_router.take(), frame) {
            (Some(mut router), Some(f)) => {
                let cancelled = router.cancel_pending(&Selector::Context(f));
                self.message_router = Some(router);
                cancelled
            },
            (router, _) => {
                self.message_router = router;
                Vec::new()
            },
        };
        Navigation { cancel_navigation: false, cancelled }
    }

    /// The renderer process of `browser` terminated: the queries of the
    /// frames noted for that browser are cancelled and their handlers told.
    /// Gives the cancelled queries, oldest first.
    pub fn on_render_process_terminated(&mut self, current: ThreadId, browser: Option<BrowserRef>)
        -> (cancelled: Vec<PendingQuery>)
        requires
            current == ThreadId::UI,
            old(self).wf(),
        ensures
            final(self).wf(),
            (final(self)@, cancelled@) == old(self)@.terminated(browser),
    {
        let frames = self.frames_of(browser);
        match self.message_router.take() {
            Some(mut router) => {
                let cancelled = router.cancel_pending(&Selector::Contexts(frames));
                self.message_router = Some(router);
                cancelled
            },
            None => Vec::new(),
        }
    }

    /// The name of the resource that answers a request for `url`: for a URL
    /// of the application's origin, what follows the origin, without query
    /// and fragment. `None` for a request without URL and for a URL of
    /// another origin. Touches nothing of the coordinator's state.
    pub fn resource_handler(&self, current: ThreadId, url: Option<&str>) -> (r: Option<String>)
        requires
            current == ThreadId::IO,
        ensures
            match url {
                Some(u) => match resource_path(u@) {
                    Some(path) => r matches Some(s) && s@ == path,
                    None => r is None,
                },
                None => r is None,
            },
    {
        match url {
            Some(u) => get_resource_path(u),
            None => None,
        }
    }
}

/// Creating a browser instance keeps the coordinator well-formed.
pub proof fn lemma_created(s: ManagerState, browser: Option<BrowserRef>, next: ManagerState)
    requires
        s.wf(),
        s.created(browser, next),
    ensures
        next.wf(),
{
    if s.router is None {
        let r = next.router->0;
        assert(r.handlers.entries[0].id == next.handler_id->0);
    }
}

/// Destroying a browser instance keeps the coordinator well-formed.
pub proof fn lemma_destroyed(s: ManagerState, browser: Option<BrowserRef>)
    requires
        s.wf(),
        s.browser_ct > 0,
    ensures
        s.destroyed(browser).0.wf(),
{
    let r = s.router->0;
    lemma_cancel_selected(r, Selection::Contexts(s.frames_of(browser)));
}

/// The router is made with the first browser instance. Before, there is
/// none; after, there is one on the default channel, with the application's
/// handler as its only handler and without queries.
pub proof fn law_first_browser_makes_the_router(
    s: ManagerState,
    browser: Option<BrowserRef>,
    next: ManagerState,
)
    requires
        s.wf(),
        s.browser_ct == 0,
        s.created(browser, next),
    ensures
        s.router is None,
        next.browser_ct == 1,
        next.router matches Some(r) && next.handler_id matches Some(id) && s.is_fresh_router(r, id),
        next.wf(),
{
    lemma_created(s, browser, next);
}

/// A second browser instance does not make a second router. While a router
/// exists, a new instance raises the count by one and leaves the router as it
/// is: its handlers, their ids and its queries.
pub proof fn law_second_browser_keeps_the_router(
    s: ManagerState,
    browser: Option<BrowserRef>,
    next: ManagerState,
)
    requires
        s.wf(),
        s.browser_ct > 0,
        s.created(browser, next),
    ensures
        next.browser_ct == s.browser_ct + 1,
        next.router == s.router,
        next.router is Some,
        next.handler_id == s.handler_id,
        next.wf(),
{
    lemma_created(s, browser, next);
}

/// The router goes with the last browser instance, and no query goes with it
/// unheard: when the last active instance is destroyed, every query that is
/// still outstanding is among the cancelled, in the table's order, and the
/// router is gone.
pub proof fn law_last_browser_tears_the_router_down(s: ManagerState, browser: Option<BrowserRef>)
    requires
        s.wf(),
        s.browser_ct == 1,
    ensures
        s.router is Some,
        s.destroyed(browser).0.router is None,
        s.destroyed(browser).0.handler_id is None,
        s.destroyed(browser).0.browser_ct == 0,
        s.destroyed(browser).1 == s.router->0.queries.pending,
        s.destroyed(browser).0.wf(),
{
    let r = s.router->0;
    let sel = Selection::All;
    lemma_filter_all(r.queries.pending, |q: PendingQuery| sel.takes(q));
}

/// While another browser instance stays active, destroying one keeps the
/// router: only the queries of the frames noted for the destroyed instance
/// are cancelled, and the handlers stay registered.
pub proof fn law_router_outlives_all_but_the_last(s: ManagerState, browser: Option<BrowserRef>)
    requires
        s.wf(),
        s.browser_ct > 1,
    ensures
        s.destroyed(browser).0.router matches Some(r) && r.handlers == s.router->0.handlers
            && r.channel_name == s.router->0.channel_name,
        s.destroyed(browser).0.handler_id == s.handler_id,
        s.destroyed(browser).1 == s.router->0.queries.selected(
            Selection::Contexts(s.frames_of(browser)),
        ),
        s.destroyed(browser).0.wf(),
{
    lemma_destroyed(s, browser);
}

} // verus!
