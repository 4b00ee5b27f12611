//! The configuration: a document with one block for each host, and in each
//! block one line for each directive.
//!
//! ```text
//! "example.com" {
//!     root "*" "/var/www"
//!     file_server
//! }
//! ```
//!
//! The caller parses the text and hands over what the document holds, as
//! [`Block`]s; the directives are read from these.

use vstd::prelude::*;
use crate::directive::{Directive, DirectiveView, directive_views};
use crate::error::{ConfigError, ConfigErrorView};
use crate::hosts::{HostEntryView, HostTable, put};
use crate::text::same_text;

verus! {

/// One value that stands behind a keyword. `name` is set where the value
/// was written as `name=value`. `text` is the value where it is a string,
/// and `None` where it is a number, a truth value or null.
#[derive(Debug, PartialEq, Eq)]
pub struct Argument {
    pub name: Option<String>,
    pub text: Option<String>,
}

/// One line of a block: a keyword and what stands behind it.
#[derive(Debug, PartialEq, Eq)]
pub struct Line {
    pub keyword: String,
    pub arguments: Vec<Argument>,
}

/// One block of the document: the name of a host and its lines.
#[derive(Debug, PartialEq, Eq)]
pub struct Block {
    pub name: String,
    pub lines: Vec<Line>,
}

/// The view of a string that may be missing.
pub open spec fn text_view(text: Option<String>) -> Option<Seq<char>> {
    match text {
        Some(t) => Some(t@),
        None => None,
    }
}

/// What an [`Argument`] holds, as mathematical values.
pub struct ArgumentView {
    pub name: Option<Seq<char>>,
    pub text: Option<Seq<char>>,
}

impl View for Argument {
    type V = ArgumentView;

    open spec fn view(&self) -> ArgumentView {
        ArgumentView { name: text_view(self.name), text: text_view(self.text) }
    }
}

/// What a [`Line`] holds, as mathematical values.
pub struct LineView {
    pub keyword: Seq<char>,
    pub arguments: Seq<ArgumentView>,
}

impl View for Line {
    type V = LineView;

    open spec fn view(&self) -> LineView {
        LineView {
            keyword: self.keyword@,
            arguments: self.arguments@.map_values(|a: Argument| a@),
        }
    }
}

/// What a [`Block`] holds, as mathematical values.
pub struct BlockView {
    pub name: Seq<char>,
    pub lines: Seq<LineView>,
}

impl View for Block {
    type V = BlockView;

    open spec fn view(&self) -> BlockView {
        BlockView { name: self.name@, lines: self.lines@.map_values(|l: Line| l@) }
    }
}

/// The views of a list of blocks, in the same order.
pub open spec fn block_views(list: Seq<Block>) -> Seq<BlockView> {
    list.map_values(|b: Block| b@)
}

/// The texts among `arguments` that were written without a name, in order.
pub open spec fn texts(arguments: Seq<ArgumentView>) -> Seq<Seq<char>>
    decreases arguments.len(),
{
    if arguments.len() == 0 {
        Seq::empty()
    } else {
        let before = texts(arguments.drop_last());
        match arguments.last() {
            ArgumentView { name: None, text: Some(text) } => before.push(text),
            _ => before,
        }
    }
}

/// How many texts the directive `keyword` needs, or `None` where there is
/// no such directive.
pub open spec fn needed(keyword: Seq<char>) -> Option<nat> {
    if keyword == "root"@ {
        Some(2)
    } else if keyword == "file_server"@ {
        Some(0)
    } else if keyword == "reverse_proxy"@ {
        Some(2)
    } else if keyword == "redir"@ {
        Some(1)
    } else if keyword == "tls"@ {
        Some(2)
    } else {
        None
    }
}

/// The directive that `line` writes, or `None` where it writes none: the
/// keyword is not known, or fewer texts stand behind it than it needs.
/// Texts beyond those that it needs are not read.
pub open spec fn directive_of(line: LineView) -> Option<DirectiveView> {
    let values = texts(line.arguments);
    if needed(line.keyword) is None || values.len() < needed(line.keyword)->0 {
        None
    } else if line.keyword == "root"@ {
        Some(DirectiveView::Root { pattern: values[0], path: values[1] })
    } else if line.keyword == "file_server"@ {
        Some(DirectiveView::FileServer)
    } else if line.keyword == "reverse_proxy"@ {
        Some(DirectiveView::ReverseProxy { pattern: values[0], destination: values[1] })
    } else if line.keyword == "redir"@ {
        Some(DirectiveView::Redir { destination: values[0] })
    } else {
        Some(DirectiveView::Tls { cert: values[0], key: values[1] })
    }
}

/// What is wrong with a line of the host `host` that writes no directive.
pub open spec fn fault_of(host: Seq<char>, line: LineView) -> ConfigErrorView {
    if needed(line.keyword) is None {
        ConfigErrorView::UnknownDirective { host, keyword: line.keyword }
    } else {
        ConfigErrorView::MissingArgument { host, keyword: line.keyword }
    }
}

/// The position of the first line from `at` on that writes no directive,
/// or the number of lines where each writes one.
pub open spec fn fault_from(lines: Seq<LineView>, at: int) -> int
    decreases lines.len() - at,
{
    if at < 0 || at >= lines.len() {
        lines.len() as int
    } else if directive_of(lines[at]) is None {
        at
    } else {
        fault_from(lines, at + 1)
    }
}

/// The directives that `lines` write, in order.
pub open spec fn directives_in(lines: Seq<LineView>) -> Seq<DirectiveView> {
    lines.map_values(|line: LineView| directive_of(line)->0)
}

/// The position of the first block from `at` on with a line that writes no
/// directive, or the number of blocks where there is none.
pub open spec fn faulty_from(blocks: Seq<BlockView>, at: int) -> int
    decreases blocks.len() - at,
{
    if at < 0 || at >= blocks.len() {
        blocks.len() as int
    } else if fault_from(blocks[at].lines, 0) < blocks[at].lines.len() {
        at
    } else {
        faulty_from(blocks, at + 1)
    }
}

/// The hosts that the first `upto` blocks configure. A block that bears the
/// name of an earlier one takes its place.
pub open spec fn assembled(blocks: Seq<BlockView>, upto: int) -> Seq<HostEntryView>
    decreases upto,
{
    if upto <= 0 || upto > blocks.len() {
        Seq::empty()
    } else {
        put(
            assembled(blocks, upto - 1),
            HostEntryView {
                name: blocks[upto - 1].name,
                directives: directives_in(blocks[upto - 1].lines),
            },
        )
    }
}

/// The configuration that `blocks` write: the hosts with their directives,
/// or what is wrong with the first line that writes no directive.
pub open spec fn config_of(blocks: Seq<BlockView>) -> Result<Seq<HostEntryView>, ConfigErrorView> {
    let b = faulty_from(blocks, 0);
    if b < blocks.len() {
        Err(fault_of(blocks[b].name, blocks[b].lines[fault_from(blocks[b].lines, 0)]))
    } else {
        Ok(assembled(blocks, blocks.len() as int))
    }
}

/// The views of a list of strings, in the same order.
pub open spec fn string_views(list: Seq<String>) -> Seq<Seq<char>> {
    list.map_values(|s: String| s@)
}

/// The texts among `arguments` that were written without a name.
fn unnamed_texts(arguments: &Vec<Argument>) -> (values: Vec<String>)
    ensures
        string_views(values@) == texts(arguments@.map_values(|a: Argument| a@)),
{
    let ghost views = arguments@.map_values(|a: Argument| a@);
    let mut values: Vec<String> = Vec::new();
    let mut i: usize = 0;
    while i < arguments.len()
        invariant
            i <= arguments@.len(),
            views == arguments@.map_values(|a: Argument| a@),
            string_views(values@) == texts(views.take(i as int)),
        decreases arguments@.len() - i,
    {
        assert(views.take(i + 1).drop_last() =~= views.take(i as int));
        let argument = &arguments[i];
        if argument.name.is_none() {
            if let Some(text) = &argument.text {
                values.push(text.clone());
            }
        }
        i += 1;
    }
    assert(views.take(i as int) =~= views);
    values
}

/// How many texts the directive `keyword` needs.
fn needed_texts(keyword: &str) -> (count: Option<usize>)
    ensures
        match count {
            Some(n) => needed(keyword@) == Some(n as nat),
            None => needed(keyword@) is None,
        },
{
    if same_text(keyword, "root") {
        Some(2)
    } else if same_text(keyword, "file_server") {
        Some(0)
    } else if same_text(keyword, "reverse_proxy") {
        Some(2)
    } else if same_text(keyword, "redir") {
        Some(1)
    } else if same_text(keyword, "tls") {
        Some(2)
    } else {
        None
    }
}

/// The view of a directive that may be missing.
pub open spec fn directive_view(directive: Option<Directive>) -> Option<DirectiveView> {
    match directive {
        Some(d) => Some(d@),
        None => None,
    }
}

/// Reads the directive that `line` writes.
pub fn read_line(line: &Line) -> (directive: Option<Directive>)
    ensures
        directive_view(directive) == directive_of(line@),
{
    let keyword = line.keyword.as_str();
    let count = match needed_texts(keyword) {
        Some(count) => count,
        None => {
            return None;
        },
    };
    let mut values = unnamed_texts(&line.arguments);
    if values.len() < count {
        return None;
    }
    if same_text(keyword, "root") {
        let path = values.swap_remove(1);
        let pattern = values.swap_remove(0);
        Some(Directive::Root { pattern, path })
    } else if same_text(keyword, "file_server") {
        Some(Directive::FileServer)
    } else if same_text(keyword, "reverse_proxy") {
        let destination = values.swap_remove(1);
        let pattern = values.swap_remove(0);
        Some(Directive::ReverseProxy { pattern, destination })
    } else if same_text(keyword, "redir") {
        let destination = values.swap_remove(0);
        Some(Directive::Redir { destination })
    } else {
        let key = values.swap_remove(1);
        let cert = values.swap_remove(0);
        Some(Directive::Tls { cert, key })
    }
}

/// Says what is wrong with a line of `host` that writes no directive.
fn fault(host: &str, line: &Line) -> (error: ConfigError)
    ensures
        error@ == fault_of(host@, line@),
{
    match needed_texts(line.keyword.as_str()) {
        Some(_) => ConfigError::MissingArgument {
            host: host.to_owned(),
            keyword: line.keyword.clone(),
        },
        None => ConfigError::UnknownDirective {
            host: host.to_owned(),
            keyword: line.keyword.clone(),
        },
    }
}

/// Reads the directives of one block.
pub fn read_block(block: &Block) -> (directives: Result<Vec<Directive>, ConfigError>)
    ensures
        match directives {
            Ok(list) => fault_from(block@.lines, 0) == block@.lines.len() && directive_views(list@)
                == directives_in(block@.lines),
            Err(error) => fault_from(block@.lines, 0) < block@.lines.len() && error@ == fault_of(
                block@.name,
                block@.lines[fault_from(block@.lines, 0)],
            ),
        },
{
    let ghost lines = block@.lines;
    let mut list: Vec<Directive> = Vec::new();
    let mut i: usize = 0;
    while i < block.lines.len()
        invariant
            i <= block.lines@.len(),
            lines == block@.lines,
            fault_from(lines, 0) == fault_from(lines, i as int),
            list@.len() == i,
            forall|k: int| 0 <= k < i ==> Some((#[trigger] list@[k])@) == directive_of(lines[k]),
        decreases block.lines@.len() - i,
    {
        match read_line(&block.lines[i]) {
            Some(directive) => {
                list.push(directive);
            },
            None => {
                return Err(fault(block.name.as_str(), &block.lines[i]));
            },
        }
        i += 1;
    }
    Ok(list)
}

/// Builds the configuration that `blocks` write: for each block a host of
/// that name with the directives of its lines, a later block in the place
/// of an earlier one of the same name.
///
/// Fails on the first line that writes no directive.
pub fn build_config(blocks: &Vec<Block>) -> (config: Result<HostTable, ConfigError>)
    ensures
        match config {
            Ok(table) => config_of(block_views(blocks@)) == Ok::<
                Seq<HostEntryView>,
                ConfigErrorView,
            >(table@),
            Err(error) => config_of(block_views(blocks@)) == Err::<
                Seq<HostEntryView>,
                ConfigErrorView,
            >(error@),
        },
{
    let ghost views = block_views(blocks@);
    let mut table = HostTable::new();
    let mut i: usize = 0;
    while i < blocks.len()
        invariant
            i <= blocks@.len(),
            views == block_views(blocks@),
            faulty_from(views, 0) == faulty_from(views, i as int),
            table@ == assembled(views, i as int),
        decreases blocks@.len() - i,
    {
        match read_block(&blocks[i]) {
            Ok(directives) => {
                table.insert(blocks[i].name.clone(), directives);
            },
            Err(error) => {
                return Err(error);
            },
        }
        i += 1;
    }
    Ok(table)
}

} // verus!
