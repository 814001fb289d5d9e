use vstd::prelude::*;

use crate::layer::{LayerView, SystemdLayer};
use crate::level::{journal_level, journal_level_from_tracing_level, level_name, level_prefix, prefix_from_tracing_level, JournalLevel, Level};
use crate::render::{rendered_line, renders_as, EventDescriptor};

verus! {

/// Where a rendered line goes.
#[derive(Debug)]
pub enum Output {
    /// Hand the line to the systemd journal with this severity.
    Journal(JournalLevel, String),
    /// Write this line to standard output.
    Stdout(String),
}

/// `o` sends `line`, of an event at `level`, where the settings say.
pub open spec fn routed(cfg: LayerView, level: Level, line: Seq<char>, o: Output) -> bool {
    match o {
        Output::Journal(l, s) => cfg.use_sd_journal && l == journal_level(level) && s@ == line,
        Output::Stdout(s) => !cfg.use_sd_journal && s@ == (if cfg.use_level_prefix {
            level_prefix(level) + line
        } else {
            line
        }),
    }
}

/// An event from `target` passes the origin filter.
pub open spec fn accepts(cfg: LayerView, target: Seq<char>) -> bool {
    match cfg.origin {
        Some(o) => o == target,
        None => true,
    }
}

impl SystemdLayer {
    /// Whether an event from `target` is to be logged at all.
    pub fn accepts_target(&self, target: &str) -> (r: bool)
        ensures
            r == accepts(self@, target@),
    {
        match self.get_origin() {
            Some(o) => crate::order::compare_keys(o, target) == 0,
            None => true,
        }
    }

    /// Picks the one destination of a rendered line: the journal with the
    /// mapped severity, or standard output with or without the priority
    /// prefix.
    pub fn route(&self, level: Level, line: String) -> (r: Output)
        ensures
            routed(self@, level, line@, r),
    {
        if self.get_use_sd_journal() {
            Output::Journal(journal_level_from_tracing_level(&level), line)
        } else if self.get_use_level_prefix() {
            let mut out = prefix_from_tracing_level(&level);
            out.append(line.as_str());
            Output::Stdout(out)
        } else {
            Output::Stdout(line)
        }
    }

    /// Renders an event and picks where its line goes; `None` when the
    /// origin filter drops it.
    pub fn on_event(&self, ev: &EventDescriptor, thread_id: u64) -> (r: Option<Output>)
        ensures
            r.is_none() == !accepts(self@, ev.target@),
            r.is_some() ==> exists|line: Seq<char>|
                #[trigger] renders_as(self@, *ev, thread_id, line) && routed(self@, ev.level, line, r.unwrap()),
            r.is_some() && !self@.use_color ==> routed(
                self@,
                ev.level,
                rendered_line(self@, *ev, level_name(ev.level), thread_id),
                r.unwrap(),
            ),
    {
        if !self.accepts_target(ev.target.as_str()) {
            return None;
        }
        let line = self.build_full_string(ev, thread_id);
        let ghost text = line@;
        let o = self.route(ev.level, line);
        assert(renders_as(self@, *ev, thread_id, text) && routed(self@, ev.level, text, o));
        Some(o)
    }
}

} // verus!
