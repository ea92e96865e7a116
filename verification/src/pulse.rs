//! The decisions of the PulseAudio client: which sink to ask about after a
//! change is reported, and which sink is the default one.

use vstd::prelude::*;

verus! {

/// The volume of the default sink, in percent, and whether it is muted.
#[derive(Clone, Copy, PartialEq, Eq, Structural, Default, Debug)]
pub struct State {
    pub volume: u8,
    pub is_muted: bool,
}

/// What the client is asked to do.
#[derive(Clone, Copy, PartialEq, Eq, Structural, Debug)]
pub enum Request {
    ToggleMute,
    Terminate,
}

/// What a reported change is about.
#[derive(Clone, Copy, PartialEq, Eq, Structural, Debug)]
pub enum Facility {
    Server,
    Sink,
    Other,
}

/// What happened to it.
#[derive(Clone, Copy, PartialEq, Eq, Structural, Debug)]
pub enum Operation {
    New,
    Changed,
    Removed,
}

/// The sink to ask the server about next.
#[derive(Clone, Copy, PartialEq, Eq, Structural, Debug)]
pub enum SinkQuery {
    Nothing,
    /// The default sink, by its name `@DEFAULT_SINK@`.
    DefaultSink,
    /// The sink of this index.
    SinkByIndex(u32),
}

/// Which sink to ask about after the server reports that `op` happened to
/// the `facility` of index `index`, `default_sink` being the index of the
/// default sink, if known. A server change may change the default sink; a
/// change of the default sink asks for its volume again; its removal asks
/// which sink is the default now.
pub fn on_subscription_event(
    facility: Option<Facility>,
    op: Option<Operation>,
    index: u32,
    default_sink: Option<u32>,
) -> (q: SinkQuery)
    ensures
        q == (match (facility, op) {
            (Some(Facility::Server), Some(_)) => SinkQuery::DefaultSink,
            (Some(Facility::Sink), Some(Operation::Changed)) => if default_sink == Some(index) {
                SinkQuery::SinkByIndex(index)
            } else {
                SinkQuery::Nothing
            },
            (Some(Facility::Sink), Some(Operation::Removed)) => if default_sink == Some(index) {
                SinkQuery::DefaultSink
            } else {
                SinkQuery::Nothing
            },
            _ => SinkQuery::Nothing,
        }),
{
    let (facility, op) = match (facility, op) {
        (Some(f), Some(o)) => (f, o),
        _ => return SinkQuery::Nothing,
    };
    let is_current = match default_sink {
        Some(i) => i == index,
        None => false,
    };
    match facility {
        Facility::Server => SinkQuery::DefaultSink,
        Facility::Sink => {
            if op == Operation::Changed && is_current {
                SinkQuery::SinkByIndex(index)
            } else if op == Operation::Removed && is_current {
                SinkQuery::DefaultSink
            } else {
                SinkQuery::Nothing
            }
        },
        Facility::Other => SinkQuery::Nothing,
    }
}

/// The index of the default sink, as learnt from the listings that the
/// server sends for `@DEFAULT_SINK@`: an item names it, the end of a listing
/// without an item means there is none.
#[derive(Clone, Copy, PartialEq, Eq, Structural, Debug)]
pub struct DefaultSinkTracker {
    pub has_default_sink: bool,
    pub default_sink: Option<u32>,
}

impl DefaultSinkTracker {
    /// Nothing learnt yet.
    pub fn new() -> (t: Self)
        ensures
            !t.has_default_sink,
            t.default_sink is None,
    {
        DefaultSinkTracker { has_default_sink: false, default_sink: None }
    }

    /// The listing gave the sink of index `index`: it is the default one.
    pub fn on_item(&mut self, index: u32)
        ensures
            final(self).has_default_sink,
            final(self).default_sink == Some(index),
    {
        self.has_default_sink = true;
        self.default_sink = Some(index);
    }

    /// The listing ended (or failed): without an item there is no default
    /// sink. The next listing starts afresh.
    pub fn on_end(&mut self)
        ensures
            !final(self).has_default_sink,
            final(self).default_sink == (if old(self).has_default_sink {
                old(self).default_sink
            } else {
                None
            }),
    {
        if !self.has_default_sink {
            self.default_sink = None;
        }
        self.has_default_sink = false;
    }
}

/// A listing that names a sink and then ends leaves that sink the default
/// one; a listing that ends at once leaves none.
pub proof fn law_default_sink_listing(
    start: DefaultSinkTracker,
    after_item: DefaultSinkTracker,
    after_end: DefaultSinkTracker,
    index: u32,
)
    requires
        after_item.has_default_sink && after_item.default_sink == Some(index),
        !after_end.has_default_sink,
        after_end.default_sink == (if after_item.has_default_sink {
            after_item.default_sink
        } else {
            None
        }),
    ensures
        after_end.default_sink == Some(index),
{
}

/// The icon that shows the volume of `state`: muted, loud (80% and up),
/// medium (20% and up) or low.
pub fn volume_icon(state: State) -> (icon: &'static str)
    ensures
        icon@ == (if state.is_muted {
            "\u{f075f} "@
        } else if state.volume >= 80 {
            "\u{f057e}"@
        } else if state.volume >= 20 {
            "\u{f0580}"@
        } else {
            "\u{f057f}"@
        }),
{
    if state.is_muted {
        "\u{f075f} "
    } else if state.volume >= 80 {
        "\u{f057e}"
    } else if state.volume >= 20 {
        "\u{f0580}"
    } else {
        "\u{f057f}"
    }
}

/// The number of subscribers to the volume state, given the number of
/// receivers of its channel, or `None` while no channel is open. One receiver
/// is the module's own, kept to hand out copies, so it is not counted.
pub fn subscriber_count(receivers: Option<usize>) -> (n: usize)
    requires
        receivers matches Some(r) ==> r >= 1,
    ensures
        n == match receivers {
            Some(r) => (r - 1) as usize,
            None => 0usize,
        },
{
    match receivers {
        Some(r) => r - 1,
        None => 0,
    }
}

} // verus!
