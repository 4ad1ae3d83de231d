//! Drawing, as a list of what to draw and as the bytes a terminal takes.

use vstd::prelude::*;
use vstd::string::*;

use crate::text::decimal;

verus! {

/// The shape of the screen a frame is being drawn for.
///
/// Passed in rather than asked for inside the drawing code: the terminal
/// answers for the process's own screen, which a test has none of, and the
/// layout is the part worth stating. The event loops own the terminal, so they
/// are where the question gets asked — once per frame, which is also what
/// keeps a resize taking effect on the next redraw.
#[derive(Debug, Clone, Copy)]
pub struct Size {
    pub cols: usize,
    pub rows: u16,
}

/// How text is set off from the rest.
#[derive(Debug, Clone, Copy, PartialEq, Eq, Structural)]
pub enum Attribute {
    Bold,
    Dim,
    Underlined,
    Reverse,
    /// Back to plain text.
    Reset,
}

/// One thing to draw.
#[derive(Debug)]
pub enum Op {
    /// Clear the whole screen.
    Clear,
    /// Go to a column and a row, both counted from zero.
    MoveTo(u16, u16),
    Style(Attribute),
    Print(String),
}

/// One thing to draw, as contracts speak of it.
pub enum OpModel {
    Clear,
    MoveTo(u16, u16),
    Style(Attribute),
    Print(Seq<char>),
}

impl View for Op {
    type V = OpModel;

    open spec fn view(&self) -> OpModel {
        match *self {
            Op::Clear => OpModel::Clear,
            Op::MoveTo(column, row) => OpModel::MoveTo(column, row),
            Op::Style(attribute) => OpModel::Style(attribute),
            Op::Print(text) => OpModel::Print(text@),
        }
    }
}

/// A frame being drawn.
#[derive(Debug)]
pub struct Canvas {
    pub ops: Vec<Op>,
}

impl View for Canvas {
    type V = Seq<OpModel>;

    open spec fn view(&self) -> Seq<OpModel> {
        self.ops@.map_values(|o: Op| o@)
    }
}

/// Columns and rows go to the terminal counted from one, so the last number
/// that can be written is out of reach.
pub open spec fn on_screen(op: OpModel) -> bool {
    match op {
        OpModel::MoveTo(column, row) => column < u16::MAX && row < u16::MAX,
        _ => true,
    }
}

/// Every position of a frame can be sent to a terminal.
pub open spec fn drawable(ops: Seq<OpModel>) -> bool {
    forall|i: int| 0 <= i < ops.len() ==> on_screen(#[trigger] ops[i])
}

impl Canvas {
    pub fn new() -> (r: Canvas)
        ensures
            r@ == Seq::<OpModel>::empty(),
    {
        let r = Canvas { ops: Vec::new() };
        assert(r@ =~= Seq::<OpModel>::empty());
        r
    }

    fn add(&mut self, op: Op)
        ensures
            final(self)@ == old(self)@.push(op@),
    {
        self.ops.push(op);
        assert(self@ =~= old(self)@.push(op@));
    }

    pub fn clear(&mut self)
        ensures
            final(self)@ == old(self)@.push(OpModel::Clear),
    {
        self.add(Op::Clear);
    }

    pub fn move_to(&mut self, column: u16, row: u16)
        ensures
            final(self)@ == old(self)@.push(OpModel::MoveTo(column, row)),
    {
        self.add(Op::MoveTo(column, row));
    }

    pub fn set(&mut self, attribute: Attribute)
        ensures
            final(self)@ == old(self)@.push(OpModel::Style(attribute)),
    {
        self.add(Op::Style(attribute));
    }

    pub fn print(&mut self, text: &str)
        ensures
            final(self)@ == old(self)@.push(OpModel::Print(text@)),
    {
        self.add(Op::Print(text.to_string()));
    }

    /// The bytes that make a terminal show this frame, as text.
    pub fn render(&self) -> (r: String)
        requires
            drawable(self@),
        ensures
            r@ == encoded(self@),
    {
        let mut r = String::new();
        let ghost all = self@;
        assert(r@ =~= encoded(all.take(0)));
        for i in 0..self.ops.len()
            invariant
                all == self@,
                drawable(all),
                r@ == encoded(all.take(i as int)),
        {
            assert(all[i as int] == self.ops@[i as int]@);
            assert(all.take(i + 1).drop_last() =~= all.take(i as int));
            assert(on_screen(all[i as int]));
            let code = match &self.ops[i] {
                Op::Clear => clear_code(),
                Op::MoveTo(column, row) => move_code(*column, *row),
                Op::Style(attribute) => attribute_code(*attribute),
                Op::Print(text) => text.clone(),
            };
            r.append(code.as_str());
        }
        assert(all.take(self.ops@.len() as int) =~= all);
        r
    }
}

/// The number a terminal knows an attribute by.
pub open spec fn attribute_number(attribute: Attribute) -> Seq<char> {
    match attribute {
        Attribute::Bold => "1"@,
        Attribute::Dim => "2"@,
        Attribute::Underlined => "4"@,
        Attribute::Reverse => "7"@,
        Attribute::Reset => "0"@,
    }
}

/// What a terminal is sent for one thing to draw.
pub open spec fn code(op: OpModel) -> Seq<char> {
    match op {
        OpModel::Clear => "\u{1b}[2J"@,
        OpModel::MoveTo(column, row) => "\u{1b}["@ + decimal(row as nat + 1) + ";"@ + decimal(
            column as nat + 1,
        ) + "H"@,
        OpModel::Style(attribute) => "\u{1b}["@ + attribute_number(attribute) + "m"@,
        OpModel::Print(text) => text,
    }
}

/// What a terminal is sent for a frame.
pub open spec fn encoded(ops: Seq<OpModel>) -> Seq<char>
    decreases ops.len(),
{
    if ops.len() == 0 {
        Seq::empty()
    } else {
        encoded(ops.drop_last()) + code(ops.last())
    }
}

/// `crossterm::terminal::Clear` with `ClearType::All`, by its `write_ansi`:
/// the escape sequence that clears the screen.
#[verifier::external_body]
fn clear_code() -> (r: String)
    ensures
        r@ == code(OpModel::Clear),
{
    let mut out = String::new();
    let all = crossterm::terminal::ClearType::All;
    let _ = crossterm::Command::write_ansi(&crossterm::terminal::Clear(all), &mut out);
    out
}

/// `crossterm::cursor::MoveTo`, by its `write_ansi`: the escape sequence with
/// row and column counted from one, row first. Both numbers are raised by one
/// in sixteen bits, so neither may be the largest.
#[verifier::external_body]
fn move_code(column: u16, row: u16) -> (r: String)
    requires
        column < u16::MAX,
        row < u16::MAX,
    ensures
        r@ == code(OpModel::MoveTo(column, row)),
{
    let mut out = String::new();
    let _ = crossterm::Command::write_ansi(&crossterm::cursor::MoveTo(column, row), &mut out);
    out
}

/// `crossterm::style::SetAttribute`, by its `write_ansi`: the escape sequence
/// with the attribute's number.
#[verifier::external_body]
fn attribute_code(attribute: Attribute) -> (r: String)
    ensures
        r@ == code(OpModel::Style(attribute)),
{
    let wanted = match attribute {
        Attribute::Bold => crossterm::style::Attribute::Bold,
        Attribute::Dim => crossterm::style::Attribute::Dim,
        Attribute::Underlined => crossterm::style::Attribute::Underlined,
        Attribute::Reverse => crossterm::style::Attribute::Reverse,
        Attribute::Reset => crossterm::style::Attribute::Reset,
    };
    let mut out = String::new();
    let _ = crossterm::Command::write_ansi(&crossterm::style::SetAttribute(wanted), &mut out);
    out
}

/// The characters a frame shows, one after the other.
pub open spec fn printed(ops: Seq<OpModel>) -> Seq<char>
    decreases ops.len(),
{
    if ops.len() == 0 {
        Seq::empty()
    } else {
        printed(ops.drop_last()) + match ops.last() {
            OpModel::Print(text) => text,
            _ => Seq::empty(),
        }
    }
}

/// Frames drawn one after the other show their characters one after the other.
pub proof fn law_printing_goes_piece_by_piece(a: Seq<OpModel>, b: Seq<OpModel>)
    ensures
        printed(a + b) == printed(a) + printed(b),
    decreases b.len(),
{
    if b.len() == 0 {
        assert(a + b =~= a);
        assert(printed(a + b) =~= printed(a) + printed(b));
    } else {
        law_printing_goes_piece_by_piece(a, b.drop_last());
        assert((a + b).drop_last() =~= a + b.drop_last());
        assert((a + b).last() == b.last());
        assert(printed(a + b) =~= printed(a) + printed(b));
    }
}

/// Frames drawn one after the other are sent one after the other.
pub proof fn law_encoding_goes_piece_by_piece(a: Seq<OpModel>, b: Seq<OpModel>)
    ensures
        encoded(a + b) == encoded(a) + encoded(b),
    decreases b.len(),
{
    if b.len() == 0 {
        assert(a + b =~= a);
        assert(encoded(a + b) =~= encoded(a) + encoded(b));
    } else {
        law_encoding_goes_piece_by_piece(a, b.drop_last());
        assert((a + b).drop_last() =~= a + b.drop_last());
        assert((a + b).last() == b.last());
        assert(encoded(a + b) =~= encoded(a) + encoded(b));
    }
}

} // verus!
