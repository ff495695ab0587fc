//! The scrollback log: an ordered buffer of display lines, oldest first, that
//! is trimmed from the front to what the log pane can show when it is drawn.

use vstd::prelude::*;

verus! {

/// Number of lines a log pane of the given height can show: the border takes
/// two rows.
pub open spec fn capacity(height: u16) -> nat {
    if height >= 2 {
        (height - 2) as nat
    } else {
        0
    }
}

/// The `n` most recent lines of `lines`, or all of them when there are fewer.
pub open spec fn newest(lines: Seq<Seq<char>>, n: nat) -> Seq<Seq<char>> {
    if lines.len() <= n {
        lines
    } else {
        lines.subrange(lines.len() - n, lines.len() as int)
    }
}

/// Replacing the most recent line; an empty log stays empty.
pub open spec fn replaced_newest(lines: Seq<Seq<char>>, line: Seq<char>) -> Seq<Seq<char>> {
    if lines.len() == 0 {
        lines
    } else {
        lines.drop_last().push(line)
    }
}

/// One update of the log.
pub enum LogOp {
    /// Add a line at the newest position.
    Append(String),
    /// Overwrite the newest line (progress-bar style updates).
    ReplaceNewest(String),
}

/// The lines after applying `op` to `lines`.
pub open spec fn applied(lines: Seq<Seq<char>>, op: LogOp) -> Seq<Seq<char>> {
    match op {
        LogOp::Append(s) => lines.push(s@),
        LogOp::ReplaceNewest(s) => replaced_newest(lines, s@),
    }
}

/// One call on a log: an update, or a redraw into a pane of the given height.
pub enum LogEvent {
    Update(LogOp),
    Redraw(u16),
}

/// The lines a log holds after `events`, starting empty.
pub open spec fn after_events(events: Seq<LogEvent>) -> Seq<Seq<char>>
    decreases events.len(),
{
    if events.len() == 0 {
        Seq::empty()
    } else {
        let before = after_events(events.drop_last());
        match events.last() {
            LogEvent::Update(op) => applied(before, op),
            LogEvent::Redraw(height) => newest(before, capacity(height)),
        }
    }
}

/// The lines of an unbounded log after the updates among `events`, redraws
/// ignored.
pub open spec fn history(events: Seq<LogEvent>) -> Seq<Seq<char>>
    decreases events.len(),
{
    if events.len() == 0 {
        Seq::empty()
    } else {
        let before = history(events.drop_last());
        match events.last() {
            LogEvent::Update(op) => applied(before, op),
            LogEvent::Redraw(_) => before,
        }
    }
}

/// Every redraw among `events` had at least `height` rows.
pub open spec fn redraws_at_least(events: Seq<LogEvent>, height: u16) -> bool {
    forall|i: int|
        0 <= i < events.len() ==> (#[trigger] events[i] matches LogEvent::Redraw(h) ==> h
            >= height)
}

/// `a` is a suffix of `b`.
pub open spec fn is_suffix(a: Seq<Seq<char>>, b: Seq<Seq<char>>) -> bool {
    a.len() <= b.len() && a == b.subrange(b.len() - a.len(), b.len() as int)
}

proof fn lemma_kept_lines_are_newest_history(events: Seq<LogEvent>, height: u16)
    requires
        redraws_at_least(events, height),
    ensures
        is_suffix(after_events(events), history(events)),
        after_events(events).len() >= history(events).len() || after_events(events).len()
            >= capacity(height),
    decreases events.len(),
{
    if events.len() > 0 {
        let prev = events.drop_last();
        assert forall|i: int| 0 <= i < prev.len() implies (#[trigger] prev[i] matches LogEvent::Redraw(
            h,
        ) ==> h >= height) by {
            assert(prev[i] == events[i]);
        }
        lemma_kept_lines_are_newest_history(prev, height);
        let r = after_events(prev);
        let h = history(prev);
        match events.last() {
            LogEvent::Update(op) => match op {
                LogOp::Append(s) => {
                    assert(r.push(s@) =~= h.push(s@).subrange(
                        h.len() + 1 - (r.len() + 1),
                        (h.len() + 1) as int,
                    ));
                },
                LogOp::ReplaceNewest(s) => {
                    if r.len() == 0 {
                        assert(r =~= replaced_newest(h, s@).subrange(
                            replaced_newest(h, s@).len() as int,
                            replaced_newest(h, s@).len() as int,
                        ));
                    } else {
                        assert(r.drop_last().push(s@) =~= h.drop_last().push(s@).subrange(
                            h.len() - r.len(),
                            h.len() as int,
                        ));
                    }
                },
            },
            LogEvent::Redraw(g) => {
                assert(events[events.len() - 1] matches LogEvent::Redraw(g));
                let cap = capacity(g);
                assert(cap >= capacity(height));
                if r.len() > cap {
                    assert(r.subrange(r.len() - cap, r.len() as int) =~= h.subrange(
                        h.len() - cap,
                        h.len() as int,
                    ));
                }
            },
        }
    } else {
        let e = Seq::<Seq<char>>::empty();
        assert(e =~= e.subrange(0, 0));
    }
}

/// Whatever updates and redraws came before, as long as no earlier redraw had
/// fewer rows, a log pane of `height` rows shows at most `height - 2` lines,
/// and they are exactly the most recent lines of the full history of updates.
pub proof fn lemma_drawn_lines_are_newest_history(events: Seq<LogEvent>, height: u16)
    requires
        redraws_at_least(events, height),
    ensures
        newest(after_events(events), capacity(height)).len() <= capacity(height),
        newest(after_events(events), capacity(height)) == newest(
            history(events),
            capacity(height),
        ),
{
    lemma_kept_lines_are_newest_history(events, height);
    let r = after_events(events);
    let h = history(events);
    let cap = capacity(height);
    if r.len() > cap {
        assert(r.subrange(r.len() - cap, r.len() as int) =~= h.subrange(
            h.len() - cap,
            h.len() as int,
        ));
    } else if h.len() > cap {
        assert(r =~= h.subrange(h.len() - cap, h.len() as int));
    } else {
        assert(r =~= h);
    }
}

pub struct Log {
    log_items: Vec<String>,
}

impl View for Log {
    type V = Seq<Seq<char>>;

    closed spec fn view(&self) -> Seq<Seq<char>> {
        self.log_items@.map_values(|s: String| s@)
    }
}

impl Log {
    pub fn new() -> (r: Self)
        ensures
            r@ == Seq::<Seq<char>>::empty(),
    {
        let r = Log { log_items: Vec::new() };
        assert(r@ =~= Seq::<Seq<char>>::empty());
        r
    }

    pub fn append(&mut self, item: String)
        ensures
            final(self)@ == old(self)@.push(item@),
    {
        self.log_items.push(item);
        assert(self@ =~= old(self)@.push(item@));
    }

    pub fn clean(&mut self)
        ensures
            final(self)@ == Seq::<Seq<char>>::empty(),
    {
        self.log_items.clear();
        assert(self@ =~= Seq::<Seq<char>>::empty());
    }

    pub fn replace_newest(&mut self, item: String)
        ensures
            final(self)@ == replaced_newest(old(self)@, item@),
    {
        if self.log_items.len() > 0 {
            self.log_items.pop();
            self.log_items.push(item);
            assert(self@ =~= old(self)@.drop_last().push(item@));
        }
    }

    pub fn apply(&mut self, op: LogOp)
        ensures
            final(self)@ == applied(old(self)@, op),
    {
        match op {
            LogOp::Append(s) => self.append(s),
            LogOp::ReplaceNewest(s) => self.replace_newest(s),
        }
    }

    /// Trims the log to what a pane of `area_height` rows shows and returns
    /// those lines, oldest first.
    pub fn draw(&mut self, area_height: u16) -> (r: Vec<String>)
        ensures
            final(self)@ == newest(old(self)@, capacity(area_height)),
            r@.map_values(|s: String| s@) == final(self)@,
    {
        let num_elements: usize = if area_height >= 2 {
            (area_height - 2) as usize
        } else {
            0
        };
        if num_elements < self.log_items.len() {
            let split_idx: usize = self.log_items.len() - num_elements;
            self.log_items = self.log_items.split_off(split_idx);
        }
        assert(self@ =~= newest(old(self)@, capacity(area_height)));
        let mut r: Vec<String> = Vec::new();
        let mut i: usize = 0;
        while i < self.log_items.len()
            invariant
                i <= self.log_items@.len(),
                r@.len() == i,
                forall|j: int| 0 <= j < i ==> r@[j] == self.log_items@[j],
            decreases self.log_items@.len() - i,
        {
            r.push(self.log_items[i].clone());
            i += 1;
        }
        assert(r@.map_values(|s: String| s@) =~= self@);
        r
    }
}

} // verus!
