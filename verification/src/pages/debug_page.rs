//! The page that shows what is kept of a crash.
use vstd::prelude::*;
#[allow(unused_imports)]
use vstd::string::*;

use crate::draw::{Area, Canvas, DrawOp, Face, Ink, Op};
use crate::event::EventType;

verus! {

/// The page.
#[derive(Clone, Copy, Debug, PartialEq, Eq, Structural)]
pub struct DebugPage {
    pub running: bool,
    pub need_render: bool,
}

/// The text of the page: the last crash, where there was one.
pub open spec fn shown_text(log: Option<(u32, Seq<char>)>) -> Seq<char> {
    match log {
        Some((count, last)) if count > 0 => last,
        _ => "没有错误日志"@,
    }
}

impl DebugPage {
    /// The page before it runs.
    pub fn new() -> (p: DebugPage)
        ensures
            p == (DebugPage { running: false, need_render: false }),
    {
        DebugPage { running: false, need_render: false }
    }

    /// The page begins to run, and is drawn.
    pub fn start(self) -> (p: DebugPage)
        ensures
            p == (DebugPage { running: true, need_render: true }),
    {
        DebugPage { running: true, need_render: true }
    }

    /// Handles a key event: the third key ends the page; the first, held, forgets the crashes, which
    /// the result says.
    pub fn handle_event(self, e: EventType) -> (r: (DebugPage, bool))
        ensures
            r.1 == (e == EventType::KeyLongEnd(1)),
            r.0 == (if e == EventType::KeyShort(3) {
                DebugPage { running: false, ..self }
            } else if e == EventType::KeyLongEnd(1) {
                DebugPage { need_render: true, ..self }
            } else {
                self
            }),
    {
        match e {
            EventType::KeyShort(3) => (DebugPage { running: false, ..self }, false),
            EventType::KeyLongEnd(1) => (DebugPage { need_render: true, ..self }, true),
            _ => (self, false),
        }
    }

    /// Draws the page on a panel, from what is kept: how many crashes there were, and the last.
    pub fn render(w: u32, h: u32, error_count: Option<u32>, last_error: &str) -> (c: Canvas)
        requires
            h >= 20,
        ensures
            c@ == seq![
                Op::Clear(Ink::White),
                Op::TextBox(
                    shown_text(
                        match error_count {
                            Some(n) => Some((n, last_error@)),
                            None => None,
                        },
                    ),
                    Area { x: 0, y: 20, w, h: (h - 20) as u32 },
                    Face::Wqy12,
                ),
            ],
    {
        let shown = match error_count {
            Some(n) => if n > 0 {
                last_error
            } else {
                "没有错误日志"
            },
            None => "没有错误日志",
        };
        let mut t = String::new();
        t.append(shown);
        assert(t@ =~= shown@);
        let mut c = Canvas::new();
        c.clear(Ink::White);
        c.add_op(DrawOp::TextBox(t, Area { x: 0, y: 20, w, h: h - 20 }, Face::Wqy12));
        assert(c@ =~= seq![
            Op::Clear(Ink::White),
            Op::TextBox(shown@, Area { x: 0, y: 20, w, h: (h - 20) as u32 }, Face::Wqy12),
        ]);
        c
    }
}

} // verus!
