//! The trusted boundary to the trace tokenizer.
//!
//! Splitting the raw trace text into a declaration tree and a stream of
//! body commands is the tokenizer's job, done by the outside `vcd` crate.
//! This module declares the tokenizer's types and wraps each call the
//! library makes, converting every result into the library's own data
//! model; the wrappers are the only items Verus takes on trust.
//!
//! The tokenizer reads an in-memory cursor over the trace text, so every
//! result is a function of that text alone. The named results below state
//! this: `header_nodes_of` and `body_steps_of` name what the two phases
//! yield for a given text, and the parser-state names carry them through
//! the stateful calls, so that the loader's contract can tie its result to
//! the text it was given.

use crate::errors::VCDFileError;
use crate::flatten::ScopeNode;
use crate::replay::{Bit, BodyCommand, Step, commands_of, has_invalid, replay,
    value_map_from_steps};
use crate::valuemap::ValueMap;
use vstd::prelude::*;

verus! {

/// The tokenizer's streaming parser.
#[verifier::external_type_specification]
#[verifier::external_body]
#[verifier::reject_recursive_types(R)]
pub struct ExParser<R>(vcd::Parser<R>);

/// An in-memory reader over the trace text.
#[verifier::external_type_specification]
#[verifier::external_body]
#[verifier::reject_recursive_types(T)]
pub struct ExCursor<T>(std::io::Cursor<T>);

/// One node of the tokenizer's declaration tree.
#[verifier::external_type_specification]
#[verifier::external_body]
pub struct ExScopeItem(vcd::ScopeItem);

/// One decoded body command of the tokenizer.
#[verifier::external_type_specification]
#[verifier::external_body]
pub struct ExCommand(vcd::Command);

/// A four-state wire value of the tokenizer.
#[verifier::external_type_specification]
#[verifier::external_body]
pub struct ExValue(vcd::Value);

/// The declaration forest that the tokenizer reads from the start of the
/// given trace text, converted to the library's nodes; nothing where the
/// text's header does not parse. The tokenizer reads from memory, so this
/// is a function of the text alone.
pub uninterp spec fn header_nodes_of(content: Seq<char>) -> Option<Seq<ScopeNode>>;

/// The converted body steps that follow the header of the given trace
/// text, in order; meaningful where the text's header parses. A function
/// of the text alone, as above.
pub uninterp spec fn body_steps_of(content: Seq<char>) -> Seq<Step>;

/// What parsing a header from this parser state would yield, converted to
/// the library's nodes; nothing where it would fail.
pub uninterp spec fn parser_header_nodes(p: vcd::Parser<std::io::Cursor<String>>) -> Option<
    Seq<ScopeNode>,
>;

/// The converted body steps that follow this parser state's header.
pub uninterp spec fn parser_body_steps(p: vcd::Parser<std::io::Cursor<String>>) -> Seq<Step>;

/// The converted steps that iterating this parser state yields, in order.
pub uninterp spec fn parser_steps(p: vcd::Parser<std::io::Cursor<String>>) -> Seq<Step>;

/// The library command that stands for one decoded tokenizer command.
pub uninterp spec fn command_of(c: vcd::Command) -> BodyCommand;

/// Relies on vcd::Parser::new: makes a parser reading the given trace text
/// from memory. What the fresh parser will yield is what the text holds.
#[verifier::external_body]
pub(crate) fn parser_new(content: String) -> (r: vcd::Parser<std::io::Cursor<String>>)
    ensures
        parser_header_nodes(r) == header_nodes_of(content@),
        parser_body_steps(r) == body_steps_of(content@),
{
    vcd::Parser::new(std::io::Cursor::new(content))
}

/// Relies on vcd::Parser::parse_header: consumes the declaration section
/// up to its end marker and hands its items out, converted; nothing where
/// the header cannot be parsed. On success the parser stands at the start
/// of the body stream.
#[verifier::external_body]
pub(crate) fn parse_header_items(p: &mut vcd::Parser<std::io::Cursor<String>>) -> (r: Option<
    Vec<ScopeNode>,
>)
    ensures
        r is Some <==> parser_header_nodes(*old(p)) is Some,
        r is Some ==> r->Some_0@ == parser_header_nodes(*old(p))->Some_0,
        r is Some ==> parser_steps(*final(p)) == parser_body_steps(*old(p)),
{
    match p.parse_header() {
        Ok(header) => Some(scope_nodes(header.items)),
        Err(_) => None,
    }
}

/// Relies on the four variants of vcd::Value: converts one into the
/// library's bit, variant for variant.
#[verifier::external_body]
pub(crate) fn bit_from(v: vcd::Value) -> Bit {
    match v {
        vcd::Value::V0 => Bit::B0,
        vcd::Value::V1 => Bit::B1,
        vcd::Value::X => Bit::BX,
        vcd::Value::Z => Bit::BZ,
    }
}

/// Relies on the shape of vcd::ScopeItem: converts the tokenizer's
/// declaration tree into the library's scope nodes, node for node — a
/// variable keeps its reference name and the text of its identifier code,
/// a scope keeps its name, whether its kind is module, and its children.
#[verifier::external_body]
pub(crate) fn scope_nodes(items: Vec<vcd::ScopeItem>) -> Vec<ScopeNode> {
    items.into_iter().map(|item| match item {
        vcd::ScopeItem::Var(v) => ScopeNode::Variable { name: v.reference, identifier: v.code.to_string() },
        vcd::ScopeItem::Comment(c) => ScopeNode::Comment(c),
        vcd::ScopeItem::Scope(s) => ScopeNode::Scope {
            is_module: s.scope_type == vcd::ScopeType::Module,
            name: s.identifier,
            children: scope_nodes(s.items),
        },
        _ => ScopeNode::Other,
    }).collect()
}

/// Relies on vcd::Parser's iteration: hands the next body token out — a
/// decoded command, a decode failure, or nothing at the end of the trace.
/// Each token handed out is the head of the state's step stream, and the
/// parser moves past it.
#[verifier::external_body]
pub(crate) fn next_step(p: &mut vcd::Parser<std::io::Cursor<String>>) -> (r: Option<
    Result<vcd::Command, ()>,
>)
    ensures
        r is None <==> parser_steps(*old(p)).len() == 0,
        r is Some ==> parser_steps(*final(p)) == parser_steps(*old(p)).drop_first(),
        r matches Some(Ok(c)) ==> parser_steps(*old(p))[0] == Step::Decoded(command_of(c)),
        r matches Some(Err(_)) ==> parser_steps(*old(p))[0] is Invalid,
{
    p.next().map(|r| r.map_err(|_| ()))
}

/// Relies on the shape of vcd::Command: converts one decoded body command
/// into the library's command, field for field — the identifier code
/// becomes its text, a finite real value becomes its fixed text form with
/// six digits after the decimal point (a non-finite one becomes the text
/// std prints for it), scalar and vector values become the library's bits.
#[verifier::external_body]
pub(crate) fn decode_command(c: vcd::Command) -> (r: BodyCommand)
    ensures
        r == command_of(c),
{
    match c {
        vcd::Command::Timestamp(t) => BodyCommand::Timestamp(t),
        vcd::Command::ChangeScalar(id, v) => BodyCommand::ChangeScalar(id.to_string(), bit_from(v)),
        vcd::Command::ChangeVector(id, v) => BodyCommand::ChangeVector(id.to_string(), v.iter().map(bit_from).collect()),
        vcd::Command::ChangeReal(id, r) => BodyCommand::ChangeReal(id.to_string(), format!("{:6.6}", r)),
        vcd::Command::ChangeString(id, s) => BodyCommand::ChangeString(id.to_string(), s),
        vcd::Command::Comment(text) => BodyCommand::Comment(text),
        vcd::Command::Begin(_) => BodyCommand::SectionBegin,
        vcd::Command::End(_) => BodyCommand::SectionEnd,
        _ => BodyCommand::Other,
    }
}

/// Replays the remaining body stream of the parser into the value index:
/// drains the tokenizer and replays the decoded steps in order, through
/// the verified `value_map_from_steps`. Succeeds exactly when every step
/// of the stream decodes, and the index is then the replay of that stream;
/// the first undecodable step fails the whole replay with the
/// command-invalid error.
pub(crate) fn value_map_from_parser(p: &mut vcd::Parser<std::io::Cursor<String>>) -> (r: Result<
    ValueMap,
    VCDFileError,
>)
    ensures
        match r {
            Ok(m) => !has_invalid(parser_steps(*old(p))) && m.wf() && m@ == replay(
                commands_of(parser_steps(*old(p))),
                0,
                Map::empty(),
            ),
            Err(e) => has_invalid(parser_steps(*old(p))) && e
                == VCDFileError::ParsingFailCommandInvalid,
        },
{
    let steps = collect_steps(p);
    value_map_from_steps(&steps)
}

/// Drains the body stream of the parser into a list of steps: exactly the
/// step stream of the state it was handed, in order.
pub(crate) fn collect_steps(p: &mut vcd::Parser<std::io::Cursor<String>>) -> (r: Vec<Step>)
    ensures
        r@ == parser_steps(*old(p)),
{
    let mut steps: Vec<Step> = Vec::new();
    proof {
        assert(Seq::<Step>::empty() + parser_steps(*p) =~= parser_steps(*p));
    }
    loop
        invariant
            steps@ + parser_steps(*p) == parser_steps(*old(p)),
        decreases parser_steps(*p).len(),
    {
        let ghost pre_collected = steps@;
        let ghost pre_steps = parser_steps(*p);
        match next_step(p) {
            None => {
                proof {
                    assert(pre_collected + pre_steps =~= pre_collected);
                }
                return steps;
            },
            Some(Ok(c)) => {
                steps.push(Step::Decoded(decode_command(c)));
                proof {
                    assert(pre_collected.push(pre_steps[0]) + pre_steps.drop_first()
                        =~= pre_collected + pre_steps);
                }
            },
            Some(Err(_)) => {
                steps.push(Step::Invalid);
                proof {
                    assert(pre_steps[0] == Step::Invalid);
                    assert(pre_collected.push(pre_steps[0]) + pre_steps.drop_first()
                        =~= pre_collected + pre_steps);
                }
            },
        }
    }
}

} // verus!
