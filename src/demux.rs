//! Turning a subprocess's raw output into log updates: a newline appends the
//! line read so far, a carriage return overwrites the newest log line with it.

use vstd::prelude::*;
use crate::log::{replaced_newest, Log, LogOp};
use crate::text::string_from_chars;

verus! {

pub const LINE_FEED: u8 = 10;

pub const CARRIAGE_RETURN: u8 = 13;

/// Log lines and pending partial line after one more byte of output.
pub open spec fn scan_byte(lines: Seq<Seq<char>>, pending: Seq<char>, byte: u8) -> (
    Seq<Seq<char>>,
    Seq<char>,
) {
    if byte == LINE_FEED {
        (lines.push(pending), Seq::empty())
    } else if byte == CARRIAGE_RETURN {
        (replaced_newest(lines, pending), Seq::empty())
    } else {
        (lines, pending.push(byte as char))
    }
}

/// Log lines and pending partial line after `bytes` of output, read in order.
pub open spec fn scan(lines: Seq<Seq<char>>, pending: Seq<char>, bytes: Seq<u8>) -> (
    Seq<Seq<char>>,
    Seq<char>,
)
    decreases bytes.len(),
{
    if bytes.len() == 0 {
        (lines, pending)
    } else {
        let (l, p) = scan_byte(lines, pending, bytes[0]);
        scan(l, p, bytes.drop_first())
    }
}

/// Accumulates the bytes of the line being read; each byte is taken as the
/// character of the same code.
pub struct LineSplitter {
    line: Vec<char>,
}

impl LineSplitter {
    /// The characters read since the last line end.
    pub closed spec fn pending(&self) -> Seq<char> {
        self.line@
    }

    pub fn new() -> (r: Self)
        ensures
            r.pending() == Seq::<char>::empty(),
    {
        LineSplitter { line: Vec::new() }
    }

    /// Takes one byte; returns the log update that a line end calls for.
    pub fn feed(&mut self, byte: u8) -> (r: Option<LogOp>)
        ensures
            byte == LINE_FEED ==> (r matches Some(LogOp::Append(s)) && s@ == old(self).pending()),
            byte == CARRIAGE_RETURN ==> (r matches Some(LogOp::ReplaceNewest(s)) && s@ == old(
                self,
            ).pending()),
            byte != LINE_FEED && byte != CARRIAGE_RETURN ==> r is None,
            final(self).pending() == if byte == LINE_FEED || byte == CARRIAGE_RETURN {
                Seq::<char>::empty()
            } else {
                old(self).pending().push(byte as char)
            },
    {
        if byte == LINE_FEED || byte == CARRIAGE_RETURN {
            let s = string_from_chars(&self.line);
            self.line = Vec::new();
            if byte == LINE_FEED {
                Some(LogOp::Append(s))
            } else {
                Some(LogOp::ReplaceNewest(s))
            }
        } else {
            self.line.push(byte as char);
            None
        }
    }
    /// Feeds a chunk of output, applying each update to `log` as it comes. A
    /// partial line at the end stays pending.
    pub fn feed_all(&mut self, log: &mut Log, bytes: &[u8])
        ensures
            (final(log)@, final(self).pending()) == scan(old(log)@, old(self).pending(), bytes@),
    {
        let mut i: usize = 0;
        assert(bytes@.subrange(0, bytes@.len() as int) =~= bytes@);
        while i < bytes.len()
            invariant
                i <= bytes@.len(),
                scan(log@, self.pending(), bytes@.subrange(i as int, bytes@.len() as int)) == scan(
                    old(log)@,
                    old(self).pending(),
                    bytes@,
                ),
            decreases bytes@.len() - i,
        {
            let ghost rest = bytes@.subrange(i as int, bytes@.len() as int);
            assert(rest.drop_first() =~= bytes@.subrange(i + 1, bytes@.len() as int));
            let byte = bytes[i];
            let op = self.feed(byte);
            match op {
                Some(op) => log.apply(op),
                None => {},
            }
            i += 1;
        }
        assert(bytes@.subrange(bytes@.len() as int, bytes@.len() as int) =~= Seq::<u8>::empty());
    }
}

} // verus!
