//! The presentation side of progress reporting: a polling consumer that
//! never blocks on the queue — absence of a message is the normal steady
//! state, and it simply redraws the last known values.  Only the decisions
//! live here: what style to draw, when to update the drawn total, and where
//! to place the bar; the drawing itself is the caller's.

use vstd::prelude::*;
use crate::tasks::{MaxBytes, TransferredBytes};

verus! {

/// The consumer's cache of the last known values and the style currently
/// drawn: a spinner while the total is unknown, a bar once it is.
pub struct ProgressMonitor {
    pub max_bytes: MaxBytes,
    pub last_transferred: TransferredBytes,
    pub bar_style: bool,
}

/// What one polling step asks the drawing layer to do.
pub struct ProgressFrame {
    /// Switch the drawing to the indeterminate spinner.
    pub set_spinner: bool,
    /// Switch the drawing to the determinate bar.
    pub set_bar: bool,
    /// Redeclare the drawn total, when it changed.
    pub set_length: Option<MaxBytes>,
    /// Where to place the bar: the latest known transferred bytes.
    pub position: TransferredBytes,
}

impl ProgressMonitor {
    /// Before the first message: nothing transferred, no known total,
    /// spinner drawn.
    pub fn new() -> (r: Self)
        ensures
            r.max_bytes == 0,
            r.last_transferred == 0,
            r.bar_style == false,
    {
        ProgressMonitor { max_bytes: 0, last_transferred: 0, bar_style: false }
    }

    /// One polling step.  `message` is the freshest queued event, if any;
    /// with none pending the step redraws the last known values instead of
    /// waiting.  The style follows the total known before this step; the
    /// cache then takes the step's values.
    pub fn observe(&mut self, message: Option<(TransferredBytes, MaxBytes)>) -> (r: ProgressFrame)
        ensures
            ({
                let (transferred, max) = match message {
                    Some(m) => m,
                    None => (old(self).last_transferred, old(self).max_bytes),
                };
                &&& r.set_spinner == (old(self).max_bytes == 0 && old(self).bar_style)
                &&& r.set_bar == (old(self).max_bytes > 0 && !old(self).bar_style)
                &&& final(self).bar_style == (old(self).max_bytes > 0)
                &&& r.set_length == (if max != old(self).max_bytes {
                    Some(max)
                } else {
                    None::<MaxBytes>
                })
                &&& final(self).max_bytes == max
                &&& final(self).last_transferred == transferred
                &&& r.position == transferred
            }),
    {
        let (transferred, max) = match message {
            Some(m) => m,
            None => (self.last_transferred, self.max_bytes),
        };
        let mut set_spinner = false;
        let mut set_bar = false;
        if self.max_bytes == 0 && self.bar_style {
            set_spinner = true;
            self.bar_style = false;
        } else if self.max_bytes > 0 && !self.bar_style {
            set_bar = true;
            self.bar_style = true;
        }
        let set_length = if max != self.max_bytes {
            self.max_bytes = max;
            Some(max)
        } else {
            None
        };
        self.last_transferred = transferred;
        ProgressFrame { set_spinner, set_bar, set_length, position: transferred }
    }
}

} // verus!
