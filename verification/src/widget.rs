//! What the status bar shows, and who delivers it.
use crate::time::Duration;
use vstd::prelude::*;

verus! {

/// A text that can be given by reference or by value.
pub trait WidgetText: Sized {
    spec fn text(&self) -> Seq<char>;

    fn into_text(self) -> (text: String)
        ensures
            text@ == self.text(),
    ;
}

impl WidgetText for String {
    open spec fn text(&self) -> Seq<char> {
        self@
    }

    fn into_text(self) -> (text: String) {
        self
    }
}

impl WidgetText for &str {
    open spec fn text(&self) -> Seq<char> {
        self@
    }

    fn into_text(self) -> (text: String) {
        self.to_string()
    }
}

/// The texts of the two widgets.
#[derive(Debug, PartialEq, Eq)]
pub struct WidgetValues {
    pub netspeed: String,
    pub uptime: String,
}

impl Clone for WidgetValues {
    fn clone(&self) -> (copy: WidgetValues)
        ensures
            copy == *self,
    {
        WidgetValues { netspeed: self.netspeed.clone(), uptime: self.uptime.clone() }
    }
}

impl WidgetValues {
    pub fn new(netspeed: impl WidgetText, uptime: impl WidgetText) -> (values: WidgetValues)
        ensures
            values.netspeed@ == netspeed.text(),
            values.uptime@ == uptime.text(),
    {
        WidgetValues { netspeed: netspeed.into_text(), uptime: uptime.into_text() }
    }
}

/// What became of a publication.
#[derive(Debug, Clone, Copy, PartialEq, Eq, Structural)]
pub enum SinkAction {
    Published,
    /// Nothing was published; try again after this time, or after one interval
    /// if that is shorter.
    Retry(Duration),
}

/// Delivers the widgets.
pub trait WidgetSink: Sized {
    /// Whether `reply` can be the answer to a request to publish `values`, and
    /// `after` the sink it leaves behind. An implementation that promises
    /// nothing leaves this as it is.
    open spec fn publishes(
        before: Self,
        values: WidgetValues,
        after: Self,
        reply: SinkAction,
    ) -> bool {
        true
    }

    /// Publishes the values, or asks to be called again after a time that is
    /// not zero.
    fn publish(&mut self, values: &WidgetValues) -> (reply: SinkAction)
        ensures
            Self::publishes(*old(self), *values, *final(self), reply),
            reply matches SinkAction::Retry(delay) ==> delay@ > 0,
    ;
}

} // verus!
