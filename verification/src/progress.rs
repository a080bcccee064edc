use vstd::prelude::*;

verus! {

/// indicatif's terminal progress bar, declared so the library can hold and
/// drive one; Verus sees nothing inside it.
#[verifier::external_type_specification]
#[verifier::external_body]
pub struct ExProgressBar(indicatif::ProgressBar);

/// indicatif's progress-tracking reader: every read through it advances
/// the bar by the bytes consumed.
#[verifier::external_type_specification]
#[verifier::external_body]
#[verifier::reject_recursive_types(T)]
pub struct ExProgressBarIter<T>(indicatif::ProgressBarIter<T>);

/// Relies on indicatif::ProgressBar::new, ProgressStyle::default_bar,
/// ProgressStyle::template, ProgressStyle::progress_chars,
/// ProgressBar::set_style and ProgressBar::set_message: a styled bar sized
/// to `total` whose message is the label.
#[verifier::external_body]
pub(crate) fn pb_new(label: String, total: u64) -> (pb: indicatif::ProgressBar) {
    let pb = indicatif::ProgressBar::new(total);
    let style = indicatif::ProgressStyle::default_bar();
    if let Ok(styled) = style.template(
        "{msg}\n[{elapsed_precise}] [{bar:40.cyan/blue}] {bytes}/{total_bytes} ({eta})",
    ) {
        pb.set_style(styled.progress_chars("#>-"));
    }
    pb.set_message(format!("{} ...", label));
    pb
}

/// Relies on indicatif::ProgressBar::set_position.
#[verifier::external_body]
pub(crate) fn pb_set_position(pb: &indicatif::ProgressBar, pos: u64) {
    pb.set_position(pos);
}

/// Relies on indicatif::ProgressBar::finish_and_clear.
#[verifier::external_body]
pub(crate) fn pb_finish_and_clear(pb: &indicatif::ProgressBar) {
    pb.finish_and_clear();
}

/// Relies on indicatif::ProgressBar::abandon_with_message.
#[verifier::external_body]
pub(crate) fn pb_abandon(pb: &indicatif::ProgressBar, msg: &str) {
    pb.abandon_with_message(msg.to_string());
}

/// Relies on indicatif::ProgressBar::wrap_read.
#[verifier::external_body]
pub(crate) fn pb_wrap_read<R: std::io::Read>(pb: &indicatif::ProgressBar, reader: R) -> (it:
    indicatif::ProgressBarIter<R>) {
    pb.wrap_read(reader)
}

/// A byte-progress display: a terminal bar paired with a verified position
/// counter. The position never decreases, and every advance is reflected
/// on the bar.
pub struct ProgressTracker {
    bar: indicatif::ProgressBar,
    pos: u64,
    total: u64,
}

impl ProgressTracker {
    /// The units completed so far.
    pub closed spec fn position(self) -> u64 {
        self.pos
    }

    /// The total units this display was sized to.
    pub closed spec fn total(self) -> u64 {
        self.total
    }

    pub fn new(label: String, total: u64) -> (t: ProgressTracker)
        ensures
            t.position() == 0,
            t.total() == total,
    {
        ProgressTracker { bar: pb_new(label, total), pos: 0, total }
    }

    /// Advance the completed count by `n` units; the reported position
    /// only ever grows.
    pub fn advance(&mut self, n: u64)
        requires
            old(self).position() + n <= u64::MAX,
        ensures
            final(self).position() == old(self).position() + n,
            final(self).position() >= old(self).position(),
            final(self).total() == old(self).total(),
    {
        self.pos = self.pos + n;
        pb_set_position(&self.bar, self.pos);
    }

    /// End the display after a success: the bar is cleared.
    pub fn finish_and_clear(&self) {
        pb_finish_and_clear(&self.bar);
    }

    /// End the display after a failure: the bar stops with `msg`.
    pub fn abandon(&self, msg: &str) {
        pb_abandon(&self.bar, msg);
    }

    /// Hand out a reader that advances this display as it is consumed.
    pub fn wrap_read<R: std::io::Read>(&self, reader: R) -> indicatif::ProgressBarIter<R> {
        pb_wrap_read(&self.bar, reader)
    }
}

} // verus!
