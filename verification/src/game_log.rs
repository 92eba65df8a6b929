//! The narration log: colored text entries in a bounded buffer that evicts
//! its oldest entry first. The core emits entries; an external collaborator
//! owns display.

use vstd::prelude::*;

use crate::components::ColorRgb;

verus! {

/// Most entries the log keeps; pushing onto a full log drops the oldest.
pub const LOG_LIMIT: usize = 50;

/// The log grew by exactly one entry with this text and color: pushed at
/// the end, with the oldest entry evicted first when the log was full.
pub open spec fn spec_appended(
    oldl: Seq<LogEntry>,
    newl: Seq<LogEntry>,
    text: Seq<char>,
    color: ColorRgb,
) -> bool {
    &&& newl.len() >= 1
    &&& newl.last().text@ == text
    &&& newl.last().color == color
    &&& (oldl.len() < LOG_LIMIT ==> newl == oldl.push(newl.last()))
    &&& (oldl.len() >= LOG_LIMIT ==> newl == oldl.subrange(1, oldl.len() as int).push(
        newl.last(),
    ))
}

/// One narration line with its display color.
#[derive(Clone, Debug)]
pub struct LogEntry {
    pub text: String,
    pub color: ColorRgb,
}

impl LogEntry {
    pub fn new(text: String, color: ColorRgb) -> (r: Self)
        ensures
            r.text@ == text@,
            r.color == color,
    {
        Self { text, color }
    }
}

/// The bounded ring of narration entries, oldest first.
#[derive(Clone, Debug)]
pub struct GameLog {
    pub entries: Vec<LogEntry>,
}

impl GameLog {
    /// Never more entries than the cap.
    pub open spec fn wf(self) -> bool {
        self.entries@.len() <= LOG_LIMIT
    }

    /// The default yellow used by entries without an explicit color.
    pub fn default_color() -> (c: ColorRgb)
        ensures
            c == (ColorRgb { r: 100, g: 100, b: 0 }),
    {
        ColorRgb { r: 100, g: 100, b: 0 }
    }

    /// A log holding only the greeting line.
    pub fn new() -> (r: Self)
        ensures
            r.wf(),
            r.entries@.len() == 1,
            r.entries@[0].text@ == "Welcome to the dungeon!"@,
            r.entries@[0].color == (ColorRgb { r: 100, g: 100, b: 0 }),
    {
        let mut log = Self { entries: Vec::new() };
        log.add_entry_srgb("Welcome to the dungeon!".to_string(), GameLog::default_color());
        log
    }

    /// Append an entry with an explicit color; on a full log the oldest
    /// entry leaves first.
    pub fn add_entry_srgb(&mut self, text: String, color: ColorRgb)
        requires
            old(self).wf(),
        ensures
            final(self).wf(),
            1 <= final(self).entries@.len() <= LOG_LIMIT,
            spec_appended(old(self).entries@, final(self).entries@, text@, color),
    {
        self.entries.push(LogEntry::new(text, color));
        if self.entries.len() > LOG_LIMIT {
            self.entries.remove(0);
            proof {
                assert(self.entries@ =~= old(self).entries@.subrange(
                    1,
                    old(self).entries@.len() as int,
                ).push(self.entries@.last()));
            }
        }
    }

    /// Append an entry in the default color; on a full log the oldest
    /// entry leaves first.
    pub fn add_entry(&mut self, text: String)
        requires
            old(self).wf(),
        ensures
            final(self).wf(),
            1 <= final(self).entries@.len() <= LOG_LIMIT,
            spec_appended(old(self).entries@, final(self).entries@, text@, (ColorRgb { r: 100, g: 100, b: 0 })),
    {
        let color = GameLog::default_color();
        self.add_entry_srgb(text, color);
    }

    /// Drop every entry.
    pub fn clear(&mut self)
        ensures
            final(self).wf(),
            final(self).entries@.len() == 0,
    {
        self.entries.clear();
    }
}

} // verus!
