//! The command line: which graph sources to plot, or help, or what is wrong with it.
use vstd::prelude::*;

use crate::source::GraphSourceKind;

verus! {

/// One thing the command line asks for, in order.
#[derive(Debug)]
pub enum CmdlineItem {
    /// A graph source: `-e EXPR`, `-t FILE.txt` or `-w FILE.wav`.
    Source(GraphSourceKind, String),
    /// `-h`: show the usage and stop.
    Help,
    /// An option that needs an argument came last; the option's letter.
    MissingArgument(char),
    /// An argument that is not an option.
    UnknownOption(String),
}

/// The mathematical model of a command line item.
pub enum SpecCmdlineItem {
    Source(GraphSourceKind, Seq<char>),
    Help,
    MissingArgument(char),
    UnknownOption(Seq<char>),
}

impl View for CmdlineItem {
    type V = SpecCmdlineItem;

    open spec fn view(&self) -> SpecCmdlineItem {
        match self {
            CmdlineItem::Source(k, s) => SpecCmdlineItem::Source(*k, s@),
            CmdlineItem::Help => SpecCmdlineItem::Help,
            CmdlineItem::MissingArgument(c) => SpecCmdlineItem::MissingArgument(*c),
            CmdlineItem::UnknownOption(s) => SpecCmdlineItem::UnknownOption(s@),
        }
    }
}

/// The option that asks for a source of the given kind: `-e`, `-t`, `-w`.
pub open spec fn source_option(arg: Seq<char>) -> Option<GraphSourceKind> {
    if arg == seq!['-', 'e'] {
        Some(GraphSourceKind::Expression)
    } else if arg == seq!['-', 't'] {
        Some(GraphSourceKind::TxtFile)
    } else if arg == seq!['-', 'w'] {
        Some(GraphSourceKind::WavFile)
    } else {
        None
    }
}

/// The letter of a source option.
pub open spec fn option_letter(kind: GraphSourceKind) -> char {
    match kind {
        GraphSourceKind::Expression => 'e',
        GraphSourceKind::TxtFile => 't',
        GraphSourceKind::WavFile => 'w',
    }
}

/// The items that the arguments from index `n` on ask for: each source option takes the
/// argument after it; `-h`, a source option without its argument, or anything else ends
/// the list with the item that says so.
pub open spec fn cmdline_items(args: Seq<Seq<char>>, n: int) -> Seq<SpecCmdlineItem>
    decreases args.len() - n,
{
    if n < 0 || n >= args.len() {
        seq![]
    } else if args[n] == seq!['-', 'h'] {
        seq![SpecCmdlineItem::Help]
    } else if let Some(kind) = source_option(args[n]) {
        if n + 1 < args.len() {
            seq![SpecCmdlineItem::Source(kind, args[n + 1])] + cmdline_items(args, n + 2)
        } else {
            seq![SpecCmdlineItem::MissingArgument(option_letter(kind))]
        }
    } else {
        seq![SpecCmdlineItem::UnknownOption(args[n])]
    }
}

/// A source option takes the argument after it as its text, whatever that argument is,
/// even one that looks like an option, and reading goes on after that argument.
pub proof fn law_source_option_takes_next(args: Seq<Seq<char>>, n: int, k: GraphSourceKind)
    requires
        0 <= n,
        n + 1 < args.len(),
        source_option(args[n]) == Some(k),
    ensures
        cmdline_items(args, n).len() >= 1,
        cmdline_items(args, n)[0] == SpecCmdlineItem::Source(k, args[n + 1]),
        cmdline_items(args, n).drop_first() == cmdline_items(args, n + 2),
        args[n] == seq!['-', option_letter(k)],
{
    assert(cmdline_items(args, n) == seq![SpecCmdlineItem::Source(k, args[n + 1])] + cmdline_items(args, n + 2));
    assert((seq![SpecCmdlineItem::Source(k, args[n + 1])] + cmdline_items(args, n + 2)).drop_first() =~= cmdline_items(args, n + 2));
}

/// What the whole command line asks for; with no items at all, the expression `sin(x)`.
pub open spec fn cmdline(args: Seq<Seq<char>>) -> Seq<SpecCmdlineItem> {
    let items = cmdline_items(args, 0);
    if items.len() == 0 {
        seq![SpecCmdlineItem::Source(GraphSourceKind::Expression, seq!['s', 'i', 'n', '(', 'x', ')'])]
    } else {
        items
    }
}

/// Whether `arg` is `-` followed by the letter `c`.
fn is_flag(arg: &String, c: char) -> (res: bool)
    ensures
        res == (arg@ == seq!['-', c]),
{
    let chars = crate::text::chars_of(arg.as_str());
    let res = chars.len() == 2 && chars[0] == '-' && chars[1] == c;
    proof {
        if chars@.len() == 2 && chars@[0] == '-' && chars@[1] == c {
            assert(chars@ =~= seq!['-', c]);
        }
    }
    res
}

/// The items that the arguments `args` (without the program's name) ask for, in order.
pub fn read_cmdline_options(args: &Vec<String>) -> (res: Vec<CmdlineItem>)
    ensures
        res@.map_values(|i: CmdlineItem| i@) == cmdline(args@.map_values(|s: String| s@)),
{
    let ghost a = args@.map_values(|s: String| s@);
    let mut items: Vec<CmdlineItem> = Vec::new();
    let mut argn: usize = 0;
    let mut done = false;
    while argn < args.len() && !done
        invariant
            a == args@.map_values(|s: String| s@),
            argn <= args@.len(),
            done ==> items@.map_values(|i: CmdlineItem| i@) == cmdline_items(a, 0),
            !done ==> items@.map_values(|i: CmdlineItem| i@) + cmdline_items(a, argn as int) == cmdline_items(a, 0),
        decreases args@.len() - argn, if done { 0int } else { 1int },
    {
        let ghost before = items@.map_values(|i: CmdlineItem| i@);
        let arg = &args[argn];
        let kind = if is_flag(arg, 'e') {
            Some(GraphSourceKind::Expression)
        } else if is_flag(arg, 't') {
            Some(GraphSourceKind::TxtFile)
        } else if is_flag(arg, 'w') {
            Some(GraphSourceKind::WavFile)
        } else {
            None
        };
        if is_flag(arg, 'h') {
            items.push(CmdlineItem::Help);
            done = true;
        } else if let Some(kind) = kind {
            if argn + 1 < args.len() {
                items.push(CmdlineItem::Source(kind, args[argn + 1].clone()));
                argn = argn + 2;
                assert(before.push(items@.last()@) + cmdline_items(a, argn as int)
                    =~= before + (seq![items@.last()@] + cmdline_items(a, argn as int)));
            } else {
                let letter = match kind {
                    GraphSourceKind::Expression => 'e',
                    GraphSourceKind::TxtFile => 't',
                    GraphSourceKind::WavFile => 'w',
                };
                items.push(CmdlineItem::MissingArgument(letter));
                done = true;
            }
        } else {
            items.push(CmdlineItem::UnknownOption(arg.clone()));
            done = true;
        }
        assert(items@.map_values(|i: CmdlineItem| i@) =~= before.push(items@.last()@));
        proof {
            if done {
                assert(before + cmdline_items(a, argn as int) =~= before.push(items@.last()@));
            }
        }
    }
    proof {
        if !done {
            assert(items@.map_values(|i: CmdlineItem| i@) + Seq::<SpecCmdlineItem>::empty()
                =~= items@.map_values(|i: CmdlineItem| i@));
        }
    }
    if items.len() == 0 {
        let text = "sin(x)".to_owned();
        proof {
            reveal_strlit("sin(x)");
            assert("sin(x)"@ =~= seq!['s', 'i', 'n', '(', 'x', ')']);
        }
        items.push(CmdlineItem::Source(GraphSourceKind::Expression, text));
        assert(items@.map_values(|i: CmdlineItem| i@) =~= cmdline(a));
    }
    items
}

} // verus!
