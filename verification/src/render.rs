use crate::decimal::{decimal, push_decimal};
use crate::level::{bar_length, percentage_label, Level, BAR_WIDTH};
use vstd::prelude::*;
use vstd::string::StringExecFns;

verus! {

/// The character of a filled bar cell.
pub const FILLED_CELL: char = '█';

/// The bar: `cells` filled cells, padded with blanks on the right to a
/// width of 50. A longer bar is kept whole.
pub open spec fn bar(cells: nat) -> Seq<char> {
    Seq::new(
        if cells < BAR_WIDTH {
            BAR_WIDTH as nat
        } else {
            cells
        },
        |i: int|
            if i < cells {
                FILLED_CELL
            } else {
                ' '
            },
    )
}

/// The line that shows a bar of `cells` cells and the label `percent`: a
/// carriage return, the bar in brackets, a blank, the label and a percent
/// sign.
pub open spec fn display_line(cells: nat, percent: nat) -> Seq<char> {
    seq!['\r', '['] + bar(cells) + seq![']', ' '] + decimal(percent) + seq!['%']
}

/// The display line for a level: its bar and its percentage.
pub open spec fn level_line(level: Level) -> Seq<char> {
    display_line(level.reading(BAR_WIDTH as int) as nat, level.reading(100) as nat)
}

/// The line that shows silence: an empty bar and `0%`.
pub open spec fn silent_line() -> Seq<char> {
    seq!['\r', '['] + Seq::new(50, |i: int| ' ') + seq![']', ' ', '0', '%']
}

/// A level of zero is shown as an empty bar of 50 blanks and `0%`.
pub proof fn lemma_zero_level_line()
    ensures
        level_line(Level { raw: 0 }) == silent_line(),
{
    assert(level_line(Level { raw: 0 }) =~= silent_line());
}

/// Builds the display line for a bar of `cells` cells and the label
/// `percent`.
pub fn render_line(cells: usize, percent: u32) -> (line: String)
    ensures
        line@ == display_line(cells as nat, percent as nat),
{
    proof {
        reveal_strlit("\r[");
        reveal_strlit("] ");
        reveal_strlit("%");
    }
    let mut line: String = String::new();
    line.append("\r[");
    let width: usize = if cells < 50 {
        50
    } else {
        cells
    };
    let mut i: usize = 0;
    while i < width
        invariant
            i <= width,
            width == if cells < 50 {
                50
            } else {
                cells as nat
            },
            line@.len() == 2 + i,
            line@ =~= seq!['\r', '['] + bar(cells as nat).take(i as int),
        decreases width - i,
    {
        proof {
            reveal_strlit("█");
            reveal_strlit(" ");
        }
        if i < cells {
            line.append("█");
        } else {
            line.append(" ");
        }
        i = i + 1;
    }
    assert(bar(cells as nat).take(width as int) =~= bar(cells as nat));
    line.append("] ");
    push_decimal(&mut line, percent as u64);
    line.append("%");
    assert(line@ =~= display_line(cells as nat, percent as nat));
    line
}

/// The display line for `level`: its bar and its percentage.
pub fn render(level: Level) -> (line: String)
    ensures
        line@ == level_line(level),
{
    render_line(bar_length(level), percentage_label(level))
}

} // verus!
