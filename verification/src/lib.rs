//! Indexes a digital-logic value-change-dump trace.
//!
//! The library turns one trace text into two in-memory indices: a mapping
//! from fully-qualified dotted signal name to signal identifier, and a
//! mapping from signal identifier to its timeline of value changes keyed by
//! simulation time. Tokenizing the text is the outside `vcd` crate's job,
//! behind the trusted boundary of `tokenize`; everything the library does
//! with the tokens is specified and verified.

pub mod assoc;
pub mod errors;
pub mod flatten;
pub mod replay;
pub mod timeline;
pub mod tokenize;
pub mod valuemap;
pub mod varmap;

pub use errors::VCDFileError;
pub use flatten::{ScopeNode, variable_map_from_scope_item_list};
pub use replay::{Bit, BodyCommand, Step, value_map_from_steps};
pub use timeline::Timeline;
pub use valuemap::ValueMap;
pub use varmap::VariableMap;

use vstd::prelude::*;

verus! {

/// The aggregate loaded from one trace: the name it was loaded under and
/// the two indices. Immutable once returned.
#[derive(Debug, PartialEq, Eq)]
pub struct VCDFile {
    /// The name the trace was loaded under, passed through untouched.
    pub filename: String,
    /// Mapping from fully-qualified dotted signal name to signal identifier.
    pub variable_map: VariableMap,
    /// Mapping from signal identifier to its timeline of value changes.
    pub value_map: ValueMap,
}

impl VCDFile {
    /// Both indices are well-formed: unique keys, and no signal listed in
    /// the value index without at least one recorded change.
    pub open spec fn wf(self) -> bool {
        self.variable_map.wf() && self.value_map.wf()
    }
}

/// What loading owes for given inputs: success exactly when the text's
/// header parses and every body step decodes; the aggregate then carries
/// the filename untouched, the flattening of the text's declaration forest
/// and the replay of its body stream; a failure is the header-invalid
/// error exactly when the header does not parse, and the command-invalid
/// error exactly when it does but some body step is undecodable.
pub open spec fn load_result_spec(
    filename: Seq<char>,
    content: Seq<char>,
    r: Result<VCDFile, VCDFileError>,
) -> bool {
    match r {
        Ok(f) => {
            &&& tokenize::header_nodes_of(content) is Some
            &&& !replay::has_invalid(tokenize::body_steps_of(content))
            &&& f.wf()
            &&& f.filename@ == filename
            &&& f.variable_map@ == flatten::flatten_list(
                Seq::<Seq<char>>::empty(),
                tokenize::header_nodes_of(content)->Some_0,
                Map::empty(),
            )
            &&& f.value_map@ == replay::replay(
                replay::commands_of(tokenize::body_steps_of(content)),
                0,
                Map::empty(),
            )
        },
        Err(e) => {
            &&& (e == VCDFileError::ParsingFailHeaderInvalid <==> tokenize::header_nodes_of(
                content,
            ) is None)
            &&& (e == VCDFileError::ParsingFailCommandInvalid <==> tokenize::header_nodes_of(
                content,
            ) is Some && replay::has_invalid(tokenize::body_steps_of(content)))
            &&& (e == VCDFileError::ParsingFailHeaderInvalid || e
                == VCDFileError::ParsingFailCommandInvalid)
        },
    }
}

/// Loads a trace from its already-materialized text: parses the header into
/// a declaration tree, flattens it into the name index, replays the body
/// command stream into the value index, and assembles the aggregate.
///
/// Succeeds exactly when the header parses and every body command decodes,
/// and the two indices are then the flattening and the replay of what the
/// text holds. Fails with a header-invalid error exactly where the
/// declaration section cannot be parsed, and with a command-invalid error
/// exactly where it can but the body stream holds an undecodable token; no
/// partial aggregate is ever returned.
pub fn load_vcd(filename: String, content: String) -> (r: Result<VCDFile, VCDFileError>)
    ensures
        load_result_spec(filename@, content@, r),
        r is Ok <==> tokenize::header_nodes_of(content@) is Some && !replay::has_invalid(
            tokenize::body_steps_of(content@),
        ),
{
    let mut parser = tokenize::parser_new(content);
    match tokenize::parse_header_items(&mut parser) {
        None => Err(VCDFileError::ParsingFailHeaderInvalid),
        Some(nodes) => {
            let mut scope_stack: Vec<String> = Vec::new();
            let variable_map = flatten::variable_map_from_scope_item_list(
                &mut scope_stack,
                &nodes,
            );
            proof {
                assert(flatten::path_view(Seq::<String>::empty()) =~= Seq::<Seq<char>>::empty());
            }
            match tokenize::value_map_from_parser(&mut parser) {
                Ok(value_map) => Ok(VCDFile { filename, variable_map, value_map }),
                Err(e) => Err(e),
            }
        },
    }
}

/// Loading is deterministic in its inputs: any two results the load
/// contract admits for one (filename, content) pair agree — both succeed,
/// with the same filename and view-equal indices, or both fail with the
/// same error.
pub proof fn lemma_load_deterministic(
    filename: Seq<char>,
    content: Seq<char>,
    r1: Result<VCDFile, VCDFileError>,
    r2: Result<VCDFile, VCDFileError>,
)
    requires
        load_result_spec(filename, content, r1),
        load_result_spec(filename, content, r2),
    ensures
        r1 is Ok <==> r2 is Ok,
        r1 is Ok ==> r1->Ok_0.filename@ == r2->Ok_0.filename@,
        r1 is Ok ==> r1->Ok_0.variable_map@ == r2->Ok_0.variable_map@,
        r1 is Ok ==> r1->Ok_0.value_map@ == r2->Ok_0.value_map@,
        r1 is Err ==> r1->Err_0 == r2->Err_0,
{
}

/// The filename argument only passes through: for one trace text, loads
/// under different names agree on both indices, and on the error where
/// they fail.
pub proof fn lemma_load_filename_independent(
    filename1: Seq<char>,
    filename2: Seq<char>,
    content: Seq<char>,
    r1: Result<VCDFile, VCDFileError>,
    r2: Result<VCDFile, VCDFileError>,
)
    requires
        load_result_spec(filename1, content, r1),
        load_result_spec(filename2, content, r2),
    ensures
        r1 is Ok <==> r2 is Ok,
        r1 is Ok ==> r1->Ok_0.variable_map@ == r2->Ok_0.variable_map@,
        r1 is Ok ==> r1->Ok_0.value_map@ == r2->Ok_0.value_map@,
        r1 is Err ==> r1->Err_0 == r2->Err_0,
{
}

} // verus!
