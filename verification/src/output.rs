//! What is printed, and where.

use vstd::prelude::*;

verus! {

/// Something to print.
#[derive(Debug, PartialEq)]
pub enum Output {
    /// A line.
    Line(String),
    /// A text with no line end after it.
    Prompt(String),
    /// A line for standard error.
    ErrLine(String),
}

pub enum OutputView {
    Line(Seq<char>),
    Prompt(Seq<char>),
    ErrLine(Seq<char>),
}

impl View for Output {
    type V = OutputView;

    open spec fn view(&self) -> OutputView {
        match *self {
            Output::Line(s) => OutputView::Line(s@),
            Output::Prompt(s) => OutputView::Prompt(s@),
            Output::ErrLine(s) => OutputView::ErrLine(s@),
        }
    }
}

pub open spec fn outputs_view(output: Seq<Output>) -> Seq<OutputView> {
    output.map_values(|o: Output| o@)
}

/// A single thing to print.
pub fn one(o: Output) -> (output: Vec<Output>)
    ensures
        outputs_view(output@) == seq![o@],
{
    let mut output: Vec<Output> = Vec::new();
    output.push(o);
    assert(outputs_view(output@) =~= seq![o@]);
    output
}

/// The lines, to be printed.
pub open spec fn printed(lines: Seq<Seq<char>>) -> Seq<OutputView> {
    lines.map_values(|l: Seq<char>| OutputView::Line(l))
}

/// The lines, to be printed.
pub fn print_lines(lines: Vec<String>) -> (output: Vec<Output>)
    ensures
        outputs_view(output@) == printed(crate::text::texts(lines@)),
{
    let ghost all = lines@;
    let mut output: Vec<Output> = Vec::new();
    for line in it: lines
        invariant
            it.seq() == all,
            output@.len() == it.index(),
            forall|k: int|
                0 <= k < it.index() ==> (#[trigger] output@[k])@ == OutputView::Line(all[k]@),
    {
        output.push(Output::Line(line));
    }
    assert(outputs_view(output@) =~= printed(crate::text::texts(all)));
    output
}

} // verus!
