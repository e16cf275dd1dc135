use gruff_plot::cmdline::{read_cmdline_options, CmdlineItem};
use gruff_plot::source::{get_source_kind_text, get_source_kind_value, GraphSourceKind};

fn args(a: &[&str]) -> Vec<String> {
    a.iter().map(|s| s.to_string()).collect()
}

#[test]
fn sources_in_order() {
    let items = read_cmdline_options(&args(&["-e", "x^2", "-t", "f.txt", "-w", "s.wav"]));
    assert_eq!(items.len(), 3);
    assert!(matches!(&items[0], CmdlineItem::Source(GraphSourceKind::Expression, s) if s == "x^2"));
    assert!(matches!(&items[1], CmdlineItem::Source(GraphSourceKind::TxtFile, s) if s == "f.txt"));
    assert!(matches!(&items[2], CmdlineItem::Source(GraphSourceKind::WavFile, s) if s == "s.wav"));
}

#[test]
fn no_arguments_plot_sine() {
    let items = read_cmdline_options(&args(&[]));
    assert_eq!(items.len(), 1);
    assert!(matches!(&items[0], CmdlineItem::Source(GraphSourceKind::Expression, s) if s == "sin(x)"));
}

#[test]
fn help_ends_the_list() {
    let items = read_cmdline_options(&args(&["-e", "x", "-h", "-q"]));
    assert_eq!(items.len(), 2);
    assert!(matches!(&items[1], CmdlineItem::Help));
}

#[test]
fn option_without_argument() {
    let items = read_cmdline_options(&args(&["-t"]));
    assert_eq!(items.len(), 1);
    assert!(matches!(&items[0], CmdlineItem::MissingArgument('t')));
}

#[test]
fn unknown_option() {
    let items = read_cmdline_options(&args(&["-q", "-e", "x"]));
    assert_eq!(items.len(), 1);
    assert!(matches!(&items[0], CmdlineItem::UnknownOption(s) if s == "-q"));
}

#[test]
fn source_kinds_cycle() {
    let k = GraphSourceKind::Expression;
    assert_eq!(k.next(), GraphSourceKind::TxtFile);
    assert_eq!(k.next().next(), GraphSourceKind::WavFile);
    assert_eq!(k.next().next().next(), k);
}

#[test]
fn source_kind_labels_and_defaults() {
    assert_eq!(get_source_kind_text(GraphSourceKind::Expression), "f(x)");
    assert_eq!(get_source_kind_text(GraphSourceKind::TxtFile), "txt");
    assert_eq!(get_source_kind_text(GraphSourceKind::WavFile), "wav");
    assert_eq!(get_source_kind_value(GraphSourceKind::Expression), "sin(x)");
    assert_eq!(get_source_kind_value(GraphSourceKind::TxtFile), "file.txt");
    assert_eq!(get_source_kind_value(GraphSourceKind::WavFile), "file.wav");
}
