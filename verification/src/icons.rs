//! The small pictures of the status line.
use vstd::prelude::*;

use crate::draw::{Canvas, DrawOp, Icon, Ink, Op};

verus! {

/// A moon: a black disc with a white one over it.
pub open spec fn moon_ops(x: i32, y: i32) -> Seq<Op> {
    seq![
        Op::Circle(x, y, 14, 0, Some(Ink::Black)),
        Op::Circle((x + 5) as i32, (y - 2) as i32, 14, 0, Some(Ink::White)),
    ]
}

/// Three bars above a dot, struck out where there is no connection.
pub open spec fn wifi_ops(x: i32, y: i32, connected: bool) -> Seq<Op> {
    let c = seq![
        Op::Line((x - 3) as i32, y, (x + 3) as i32, y, 1),
        Op::Line((x - 6) as i32, (y - 3) as i32, (x + 6) as i32, (y - 3) as i32, 1),
        Op::Line((x - 9) as i32, (y - 6) as i32, (x + 9) as i32, (y - 6) as i32, 1),
        Op::Circle((x - 1) as i32, (y + 2) as i32, 3, 0, Some(Ink::Black)),
    ];
    if connected {
        c
    } else {
        c.push(Op::Line((x - 7) as i32, (y - 7) as i32, (x + 7) as i32, (y + 5) as i32, 1))
    }
}

/// An arrow upwards and one downwards.
pub open spec fn loading_ops(x: i32, y: i32) -> Seq<Op> {
    seq![
        Op::Line(x, (y - 7) as i32, x, (y - 1) as i32, 1),
        Op::Line((x - 3) as i32, (y - 4) as i32, x, (y - 7) as i32, 1),
        Op::Line((x + 3) as i32, (y - 4) as i32, x, (y - 7) as i32, 1),
        Op::Line(x, (y + 1) as i32, x, (y + 7) as i32, 1),
        Op::Line((x - 3) as i32, (y + 4) as i32, x, (y + 7) as i32, 1),
        Op::Line((x + 3) as i32, (y + 4) as i32, x, (y + 7) as i32, 1),
    ]
}

/// What a small picture is made of.
pub open spec fn icon_ops(icon: Icon, x: i32, y: i32, connected: bool) -> Seq<Op> {
    match icon {
        Icon::Moon => moon_ops(x, y),
        Icon::WifiStatus => wifi_ops(x, y, connected),
        Icon::Loading => loading_ops(x, y),
    }
}

/// Draws a moon.
pub fn draw_moon_icon(x: i32, y: i32) -> (c: Canvas)
    requires
        -0x4000_0000 <= x <= 0x4000_0000,
        -0x4000_0000 <= y <= 0x4000_0000,
    ensures
        c@ == moon_ops(x, y),
{
    let mut c = Canvas::new();
    c.add_op(DrawOp::Circle(x, y, 14, 0, Some(Ink::Black)));
    c.add_op(DrawOp::Circle(x + 5, y - 2, 14, 0, Some(Ink::White)));
    assert(c@ =~= moon_ops(x, y));
    c
}

/// Draws the status of the network.
pub fn draw_wifi_status(x: i32, y: i32, connected: bool) -> (c: Canvas)
    requires
        -0x4000_0000 <= x <= 0x4000_0000,
        -0x4000_0000 <= y <= 0x4000_0000,
    ensures
        c@ == wifi_ops(x, y, connected),
{
    let mut c = Canvas::new();
    c.line(x - 3, y, x + 3, y, 1);
    c.line(x - 6, y - 3, x + 6, y - 3, 1);
    c.line(x - 9, y - 6, x + 9, y - 6, 1);
    c.add_op(DrawOp::Circle(x - 1, y + 2, 3, 0, Some(Ink::Black)));
    if !connected {
        c.line(x - 7, y - 7, x + 7, y + 5, 1);
    }
    assert(c@ =~= wifi_ops(x, y, connected));
    c
}

/// Draws that something is fetched.
pub fn draw_loading_icon(x: i32, y: i32) -> (c: Canvas)
    requires
        -0x4000_0000 <= x <= 0x4000_0000,
        -0x4000_0000 <= y <= 0x4000_0000,
    ensures
        c@ == loading_ops(x, y),
{
    let mut c = Canvas::new();
    c.line(x, y - 7, x, y - 1, 1);
    c.line(x - 3, y - 4, x, y - 7, 1);
    c.line(x + 3, y - 4, x, y - 7, 1);
    c.line(x, y + 1, x, y + 7, 1);
    c.line(x - 3, y + 4, x, y + 7, 1);
    c.line(x + 3, y + 4, x, y + 7, 1);
    assert(c@ =~= loading_ops(x, y));
    c
}

/// Draws a small picture.
pub fn draw_icon(icon: Icon, x: i32, y: i32, connected: bool) -> (c: Canvas)
    requires
        -0x4000_0000 <= x <= 0x4000_0000,
        -0x4000_0000 <= y <= 0x4000_0000,
    ensures
        c@ == icon_ops(icon, x, y, connected),
{
    match icon {
        Icon::Moon => draw_moon_icon(x, y),
        Icon::WifiStatus => draw_wifi_status(x, y, connected),
        Icon::Loading => draw_loading_icon(x, y),
    }
}

} // verus!
