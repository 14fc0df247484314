//! Which login events a browser's live stream forwards: the history first, then each new event
//! once, until a terminal event.

use vstd::prelude::*;
use vstd::string::StringExecFns;
use crate::ids::same_text;
use crate::pending::{BrowserQrUrl, LoginEvent};

verus! {

/// A login event as plain values.
pub enum EventView {
    Started,
    Qr(Seq<char>),
    Scanned,
    Authenticating,
    Authenticated,
    Rejected,
    Expired,
    Error(Seq<char>, Seq<char>),
}

/// The plain value of an event.
pub open spec fn event_view(e: LoginEvent) -> EventView {
    match e {
        LoginEvent::Started => EventView::Started,
        LoginEvent::Qr { url } => EventView::Qr(url.spec_url()),
        LoginEvent::Scanned => EventView::Scanned,
        LoginEvent::Authenticating => EventView::Authenticating,
        LoginEvent::Authenticated => EventView::Authenticated,
        LoginEvent::Rejected => EventView::Rejected,
        LoginEvent::Expired => EventView::Expired,
        LoginEvent::Error { code, message } => EventView::Error(code@, message@),
    }
}

/// Whether two events carry the same content.
pub fn same_event(a: &LoginEvent, b: &LoginEvent) -> (r: bool)
    ensures
        r == (event_view(*a) == event_view(*b)),
{
    match (a, b) {
        (LoginEvent::Started, LoginEvent::Started) => true,
        (LoginEvent::Qr { url: x }, LoginEvent::Qr { url: y }) => same_text(x.expose(), y.expose()),
        (LoginEvent::Scanned, LoginEvent::Scanned) => true,
        (LoginEvent::Authenticating, LoginEvent::Authenticating) => true,
        (LoginEvent::Authenticated, LoginEvent::Authenticated) => true,
        (LoginEvent::Rejected, LoginEvent::Rejected) => true,
        (LoginEvent::Expired, LoginEvent::Expired) => true,
        (LoginEvent::Error { code: c1, message: m1 }, LoginEvent::Error { code: c2, message: m2 }) => {
            same_text(c1.as_str(), c2.as_str()) && same_text(m1.as_str(), m2.as_str())
        },
        _ => false,
    }
}

/// A copy of an event.
pub fn copy_event(e: &LoginEvent) -> (r: LoginEvent)
    ensures
        event_view(r) == event_view(*e),
{
    match e {
        LoginEvent::Started => LoginEvent::Started,
        LoginEvent::Qr { url } => LoginEvent::Qr { url: BrowserQrUrl::new(String::from_str(url.expose())) },
        LoginEvent::Scanned => LoginEvent::Scanned,
        LoginEvent::Authenticating => LoginEvent::Authenticating,
        LoginEvent::Authenticated => LoginEvent::Authenticated,
        LoginEvent::Rejected => LoginEvent::Rejected,
        LoginEvent::Expired => LoginEvent::Expired,
        LoginEvent::Error { code, message } => LoginEvent::Error {
            code: String::from_str(code.as_str()),
            message: String::from_str(message.as_str()),
        },
    }
}

/// Whether an event with the content of `e` is among `seen`.
pub open spec fn already_seen(seen: Seq<LoginEvent>, e: LoginEvent) -> bool {
    exists|i: int| 0 <= i < seen.len() && #[trigger] event_view(seen[i]) == event_view(e)
}

/// What a live stream has forwarded so far.
pub struct LiveFilter {
    seen: Vec<LoginEvent>,
    done: bool,
}

impl LiveFilter {
    pub closed spec fn spec_seen(&self) -> Seq<LoginEvent> {
        self.seen@
    }

    pub closed spec fn spec_done(&self) -> bool {
        self.done
    }

    /// Starts after `history` was sent: done already when its last event is terminal.
    pub fn new(history: Vec<LoginEvent>) -> (r: Self)
        ensures
            r.spec_seen() == history@,
            r.spec_done() == (history@.len() > 0 && history@.last().spec_is_terminal()),
    {
        let done = history.len() > 0 && history[history.len() - 1].is_terminal();
        LiveFilter { seen: history, done }
    }

    /// Whether the stream has ended.
    pub fn is_done(&self) -> (r: bool)
        ensures
            r == self.spec_done(),
    {
        self.done
    }

    /// The event to forward for `event`, if any: nothing once the stream ended or when the same
    /// event was already sent; otherwise the event, which is remembered and ends the stream
    /// when terminal.
    pub fn accept(&mut self, event: LoginEvent) -> (r: Option<LoginEvent>)
        ensures
            old(self).spec_done() || already_seen(old(self).spec_seen(), event) ==> r is None && final(self).spec_seen() == old(self).spec_seen() && final(self).spec_done() == old(self).spec_done(),
            !(old(self).spec_done() || already_seen(old(self).spec_seen(), event)) ==> {
                &&& r matches Some(e) && event_view(e) == event_view(event)
                &&& final(self).spec_seen().len() == old(self).spec_seen().len() + 1
                &&& final(self).spec_seen().drop_last() == old(self).spec_seen()
                &&& event_view(final(self).spec_seen().last()) == event_view(event)
                &&& final(self).spec_done() == event.spec_is_terminal()
            },
    {
        if self.done {
            return None;
        }
        let mut i: usize = 0;
        while i < self.seen.len()
            invariant
                i <= self.seen@.len(),
                forall|j: int| 0 <= j < i ==> event_view(#[trigger] self.seen@[j]) != event_view(event),
            decreases self.seen.len() - i,
        {
            if same_event(&self.seen[i], &event) {
                return None;
            }
            i = i + 1;
        }
        let terminal = event.is_terminal();
        let ghost before = self.seen@;
        self.seen.push(copy_event(&event));
        assert(self.seen@.drop_last() =~= before);
        self.done = terminal;
        Some(event)
    }

    /// The stream fell behind: it ends with an error telling the browser to reconnect.
    pub fn lagged(&mut self) -> (r: LoginEvent)
        ensures
            final(self).spec_done(),
            final(self).spec_seen() == old(self).spec_seen(),
            r.spec_is_terminal(),
            event_view(r) == EventView::Error("SSE_LAGGED"@, "登录状态更新过快，请重新连接。"@),
    {
        self.done = true;
        LoginEvent::Error {
            code: String::from_str("SSE_LAGGED"),
            message: String::from_str("登录状态更新过快，请重新连接。"),
        }
    }
}

} // verus!
