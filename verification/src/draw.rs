//! A list of drawing instructions.
//!
//! Pages decide what to draw and where; a panel driver carries the list out in order.
use vstd::prelude::*;

use crate::pages::IconType;

verus! {

/// The two colours of the panel.
#[derive(Clone, Copy, Debug, PartialEq, Eq, Structural)]
pub enum Ink {
    Black,
    White,
}

/// Where the outline of a frame lies relative to its edge.
#[derive(Clone, Copy, Debug, PartialEq, Eq, Structural)]
pub enum Edge {
    Inside,
    Center,
    Outside,
}

/// How a text stands relative to its vertical anchor.
#[derive(Clone, Copy, Debug, PartialEq, Eq, Structural)]
pub enum VPos {
    Top,
    Center,
    Bottom,
    Baseline,
}

/// How a text stands relative to its horizontal anchor.
#[derive(Clone, Copy, Debug, PartialEq, Eq, Structural)]
pub enum HPos {
    Left,
    Center,
    Right,
}

/// The faces that texts are set in, named by their height in pixels.
#[derive(Clone, Copy, Debug, PartialEq, Eq, Structural)]
pub enum Face {
    Wqy12,
    Wqy12Bold,
    Wqy15,
    Wqy16,
}

/// The small pictures of the status line.
#[derive(Clone, Copy, Debug, PartialEq, Eq, Structural)]
pub enum Icon {
    Loading,
    WifiStatus,
    Moon,
}

/// A rectangle with its upper left corner and its size.
#[derive(Clone, Copy, Debug, PartialEq, Eq, Structural)]
pub struct Area {
    pub x: i32,
    pub y: i32,
    pub w: u32,
    pub h: u32,
}

/// Where and how a text is set.
#[derive(Clone, Copy, Debug, PartialEq, Eq, Structural)]
pub struct Anchor {
    pub x: i32,
    pub y: i32,
    pub v: VPos,
    pub h: HPos,
    pub ink: Ink,
    pub face: Face,
}

/// One drawing instruction.
#[derive(Debug)]
pub enum DrawOp {
    /// The whole panel in one colour.
    Clear(Ink),
    /// A filled rectangle.
    Fill(Area, Ink),
    /// A white rectangle with a black outline of the given width.
    Frame(Area, Edge, u32),
    /// The black outline of a rectangle, of the given width, with nothing filled in.
    Outline(Area, Edge, u32),
    /// A black line of the given width between two points.
    Line(i32, i32, i32, i32, u32),
    /// A circle of the given upper left corner, diameter, and outline; filled where asked.
    Circle(i32, i32, u32, u32, Option<Ink>),
    /// A single black dot.
    Dot(i32, i32),
    /// A text.
    Text(String, Anchor),
    /// A text cut off outside a rectangle.
    ClippedText(String, Anchor, Area),
    /// A list with one chosen line, filling an area.
    Menu(Vec<String>, usize, Area),
    /// A square code that a camera reads, filling an area.
    Qr(String, Area),
    /// A small picture at a point.
    Icon(Icon, i32, i32),
    /// A battery that is so many percent full, at a point.
    Battery(u32, i32, i32),
    /// The closing prices as a line that fills an area.
    PriceLine(Area),
    /// The bars as candles that fill an area.
    Candles(Area),
    /// The picture of a kind of weather, given by its code, around a point and of a size.
    WeatherIcon(String, i32, i32, u32),
    /// A time in seven-segment digits, below and beside a point: the size of a digit and the width
    /// of a segment.
    Clock(String, i32, i32, HPos, u32, u32, u32),
    /// Lines through the highest and the lowest temperatures, filling an area.
    TempChart(Area, Vec<(i32, i32)>),
    /// The numbers beside such lines.
    TempLabels(Area, Vec<(i32, i32)>),
    /// The month of a day, with the day marked, filling an area.
    Calendar(Area, i32, u8, u8),
    /// Pictures with their titles, so many in a row and one of them chosen, filling an area.
    Grid(Vec<IconType>, Vec<String>, usize, Area, u32),
    /// A text broken into lines within an area, and cut off outside it.
    TextBox(String, Area, Face),
    /// A bitmap of black dots, eight to a byte from the left, each row filled up to a byte.
    Bits(Area, Vec<u8>),
}

/// What a drawing instruction says.
pub enum Op {
    Clear(Ink),
    Fill(Area, Ink),
    Frame(Area, Edge, u32),
    Outline(Area, Edge, u32),
    Line(i32, i32, i32, i32, u32),
    Circle(i32, i32, u32, u32, Option<Ink>),
    Dot(i32, i32),
    Text(Seq<char>, Anchor),
    ClippedText(Seq<char>, Anchor, Area),
    Menu(Seq<Seq<char>>, int, Area),
    Qr(Seq<char>, Area),
    Icon(Icon, i32, i32),
    Battery(u32, i32, i32),
    PriceLine(Area),
    Candles(Area),
    WeatherIcon(Seq<char>, i32, i32, u32),
    Clock(Seq<char>, i32, i32, HPos, u32, u32, u32),
    TempChart(Area, Seq<(i32, i32)>),
    TempLabels(Area, Seq<(i32, i32)>),
    Calendar(Area, i32, u8, u8),
    Grid(Seq<IconType>, Seq<Seq<char>>, int, Area, u32),
    TextBox(Seq<char>, Area, Face),
    Bits(Area, Seq<u8>),
}

/// The texts of a list of strings.
#[verifier::opaque]
pub open spec fn texts(v: Seq<String>) -> Seq<Seq<char>> {
    Seq::new(v.len(), |i: int| v[i]@)
}

/// What the texts of a list of strings are.
pub proof fn lemma_texts(v: Seq<String>)
    ensures
        texts(v).len() == v.len(),
        forall|i: int| 0 <= i < v.len() ==> #[trigger] texts(v)[i] == v[i]@,
{
    reveal(texts);
}

impl DrawOp {
    /// What the instruction says.
    pub open spec fn op(self) -> Op {
        match self {
            DrawOp::Clear(ink) => Op::Clear(ink),
            DrawOp::Fill(a, ink) => Op::Fill(a, ink),
            DrawOp::Frame(a, e, w) => Op::Frame(a, e, w),
            DrawOp::Outline(a, e, w) => Op::Outline(a, e, w),
            DrawOp::Line(a, b, c, d, w) => Op::Line(a, b, c, d, w),
            DrawOp::Circle(x, y, d, w, f) => Op::Circle(x, y, d, w, f),
            DrawOp::Dot(x, y) => Op::Dot(x, y),
            DrawOp::Text(t, a) => Op::Text(t@, a),
            DrawOp::ClippedText(t, a, c) => Op::ClippedText(t@, a, c),
            DrawOp::Menu(t, i, a) => Op::Menu(texts(t@), i as int, a),
            DrawOp::Qr(t, a) => Op::Qr(t@, a),
            DrawOp::Icon(i, x, y) => Op::Icon(i, x, y),
            DrawOp::Battery(p, x, y) => Op::Battery(p, x, y),
            DrawOp::PriceLine(a) => Op::PriceLine(a),
            DrawOp::Candles(a) => Op::Candles(a),
            DrawOp::WeatherIcon(c, x, y, n) => Op::WeatherIcon(c@, x, y, n),
            DrawOp::Clock(t, x, y, h, a, b, c) => Op::Clock(t@, x, y, h, a, b, c),
            DrawOp::TempChart(a, t) => Op::TempChart(a, t@),
            DrawOp::TempLabels(a, t) => Op::TempLabels(a, t@),
            DrawOp::Calendar(a, y, m, d) => Op::Calendar(a, y, m, d),
            DrawOp::Grid(i, t, n, a, c) => Op::Grid(i@, texts(t@), n as int, a, c),
            DrawOp::TextBox(t, a, f) => Op::TextBox(t@, a, f),
            DrawOp::Bits(a, b) => Op::Bits(a, b@),
        }
    }
}

/// Drawing instructions in the order in which they are carried out.
pub struct Canvas {
    pub ops: Vec<DrawOp>,
}

impl View for Canvas {
    type V = Seq<Op>;

    open spec fn view(&self) -> Seq<Op> {
        Seq::new(self.ops@.len(), |i: int| self.ops@[i].op())
    }
}

impl Canvas {
    /// A canvas with nothing to draw.
    pub fn new() -> (c: Canvas)
        ensures
            c@ == Seq::<Op>::empty(),
    {
        let c = Canvas { ops: Vec::new() };
        assert(c@ =~= Seq::<Op>::empty());
        c
    }

    /// Adds an instruction at the end.
    pub fn add_op(&mut self, op: DrawOp)
        ensures
            final(self)@ == old(self)@.push(op.op()),
    {
        self.ops.push(op);
        assert(self@ =~= old(self)@.push(op.op()));
    }

    /// Adds the instructions of another canvas at the end.
    pub fn append(&mut self, other: Canvas)
        ensures
            final(self)@ == old(self)@ + other@,
    {
        let mut other = other;
        let ghost a = self@;
        let ghost b = other@;
        self.ops.append(&mut other.ops);
        assert(self@ =~= a + b);
    }

    /// Colours the whole panel.
    pub fn clear(&mut self, ink: Ink)
        ensures
            final(self)@ == old(self)@.push(Op::Clear(ink)),
    {
        self.add_op(DrawOp::Clear(ink));
    }

    /// Adds a filled rectangle.
    pub fn fill(&mut self, x: i32, y: i32, w: u32, h: u32, ink: Ink)
        ensures
            final(self)@ == old(self)@.push(Op::Fill(Area { x, y, w, h }, ink)),
    {
        self.add_op(DrawOp::Fill(Area { x, y, w, h }, ink));
    }

    /// Adds a white rectangle with a black outline.
    pub fn frame(&mut self, x: i32, y: i32, w: u32, h: u32, edge: Edge, width: u32)
        ensures
            final(self)@ == old(self)@.push(Op::Frame(Area { x, y, w, h }, edge, width)),
    {
        self.add_op(DrawOp::Frame(Area { x, y, w, h }, edge, width));
    }

    /// Adds the black outline of a rectangle.
    pub fn outline(&mut self, x: i32, y: i32, w: u32, h: u32, edge: Edge, width: u32)
        ensures
            final(self)@ == old(self)@.push(Op::Outline(Area { x, y, w, h }, edge, width)),
    {
        self.add_op(DrawOp::Outline(Area { x, y, w, h }, edge, width));
    }

    /// Adds a line.
    pub fn line(&mut self, x0: i32, y0: i32, x1: i32, y1: i32, width: u32)
        ensures
            final(self)@ == old(self)@.push(Op::Line(x0, y0, x1, y1, width)),
    {
        self.add_op(DrawOp::Line(x0, y0, x1, y1, width));
    }

    /// Adds a text.
    pub fn text(&mut self, text: String, at: Anchor)
        ensures
            final(self)@ == old(self)@.push(Op::Text(text@, at)),
    {
        self.add_op(DrawOp::Text(text, at));
    }

    /// Adds a fixed text.
    pub fn label(&mut self, text: &str, at: Anchor)
        ensures
            final(self)@ == old(self)@.push(Op::Text(text@, at)),
    {
        self.add_op(DrawOp::Text(text.to_owned(), at));
    }
}

} // verus!
