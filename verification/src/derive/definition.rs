//! From the statements of a definition function to the machine's regions and transition
//! table.

use vstd::prelude::*;
use crate::derive::parse::{FsmBlock, FsmDeclarations, ParseError};
use crate::derive::parse_fsm::{
    FsmParser, ParserModel, declared, first_undeclared, flat_transitions,
    lemma_parse_blocks_distinct, spec_parse_blocks, validated_declarations,
};
use crate::derive::validation::{
    ValidatedFsm, check_declarations, create_regions, split_into_regions, state_reachable,
};
use crate::derive::codegen::{generate_fsm_table, table_of};
use crate::derive::laws::{lemma_validated_declarations_wf, lemma_validated_machines_have_tables};
use crate::fsm::table::FsmTable;

verus! {

/// The parser before the first statement.
pub open spec fn empty_parser() -> ParserModel {
    ParserModel { initial_state: None, states: Seq::empty(), events: Seq::empty() }
}

/// What validating the parser's contents refuses them for, if anything: a missing initial
/// state, an initial state that is not declared, or else the first undeclared state that a
/// transition names.
pub open spec fn spec_validate_error(p: ParserModel) -> Option<ParseError> {
    match p.initial_state {
        None => Some(ParseError::MissingInitialState),
        Some(i) => if !declared(p.states, i) {
            Some(ParseError::InitialStateNotDeclared(i))
        } else {
            match first_undeclared(p.states, flat_transitions(p.events), 0) {
                Some(x) => Some(ParseError::StateNotFound(x)),
                None => None,
            }
        },
    }
}

/// The states and transitions can be numbered with the graph's 32-bit indices.
pub open spec fn fits_graph_indices(p: ParserModel) -> bool {
    p.states.len() < u32::MAX && flat_transitions(p.events).len() + 1 < u32::MAX
}

/// Every declared state is reachable from the initial state.
pub open spec fn all_reachable(d: FsmDeclarations) -> bool {
    forall|i: int| 0 <= i < d.states@.len() ==> #[trigger] state_reachable(d, 0, i)
}

/// What `build_fsm` refuses the blocks with: as the parser refuses them, as validation
/// refuses the declarations, a state that the initial state does not reach, or declarations
/// too large to number.
pub open spec fn build_refuses(blocks: Seq<FsmBlock>, e: ParseError) -> bool {
    match spec_parse_blocks(empty_parser(), blocks) {
        Err(e2) => e == e2,
        Ok(p) => {
            ||| spec_validate_error(p) == Some(e)
            ||| spec_validate_error(p) is None && (e matches ParseError::UnreachableState(ty) && exists|
                d: FsmDeclarations,
                i: int,
            |
                #[trigger] validated_declarations(p, d) && 0 <= i < d.states@.len() && d.states@[i].ty == ty
                    && !#[trigger] state_reachable(d, 0, i))
            ||| spec_validate_error(p) is None && e == ParseError::Inconsistent && !fits_graph_indices(p)
        },
    }
}

/// The blocks that `build_fsm` has to accept: they parse, validate, fit the graph's indices
/// and every state is reachable from the initial state.
pub open spec fn build_must_accept(blocks: Seq<FsmBlock>) -> bool {
    &&& spec_parse_blocks(empty_parser(), blocks) is Ok
    &&& spec_validate_error(spec_parse_blocks(empty_parser(), blocks)->Ok_0) is None
    &&& fits_graph_indices(spec_parse_blocks(empty_parser(), blocks)->Ok_0)
    &&& forall|d: FsmDeclarations|
        #[trigger] validated_declarations(spec_parse_blocks(empty_parser(), blocks)->Ok_0, d) ==> all_reachable(d)
}

/// What `build_fsm` builds of the blocks: the validated declarations split into regions, and
/// their transition table.
pub open spec fn build_accepts(blocks: Seq<FsmBlock>, v: ValidatedFsm, t: FsmTable) -> bool {
    &&& spec_parse_blocks(empty_parser(), blocks) is Ok
    &&& exists|d: FsmDeclarations|
        validated_declarations(spec_parse_blocks(empty_parser(), blocks)->Ok_0, d) && #[trigger] split_into_regions(d, v)
    &&& table_of(v, t)
}

/// Parses the statements, validates the declarations, splits them into regions and builds the
/// transition table. A refused statement is reported as the parser refuses it, and refused
/// declarations as validation refuses them; a state that the initial state does not reach is
/// `UnreachableState`; declarations too large to number are `Inconsistent`. Otherwise the
/// machine is built.
#[verifier::spinoff_prover]
pub fn build_fsm(blocks: &Vec<FsmBlock>) -> (r: Result<(ValidatedFsm, FsmTable), ParseError>)
    ensures
        spec_parse_blocks(empty_parser(), blocks@) matches Err(e) ==> r == Err::<
            (ValidatedFsm, FsmTable),
            ParseError,
        >(e),
        spec_parse_blocks(empty_parser(), blocks@) matches Ok(p) ==> {
            &&& spec_validate_error(p) matches Some(e) ==> r == Err::<(ValidatedFsm, FsmTable), ParseError>(e)
            &&& spec_validate_error(p) is None && fits_graph_indices(p) && (forall|d: FsmDeclarations|
                #[trigger] validated_declarations(p, d) ==> all_reachable(d)) ==> r is Ok
            &&& r matches Err(ParseError::UnreachableState(ty)) ==> spec_validate_error(p) is None
                && exists|d: FsmDeclarations, i: int|
                #[trigger] validated_declarations(p, d) && 0 <= i < d.states@.len() && d.states@[i].ty == ty
                    && !#[trigger] state_reachable(d, 0, i)
            &&& r == Err::<(ValidatedFsm, FsmTable), ParseError>(ParseError::Inconsistent)
                ==> spec_validate_error(p) is None && !fits_graph_indices(p)
            &&& r matches Err(e) ==> spec_validate_error(p) == Some(e) || e is UnreachableState
                || e == ParseError::Inconsistent
        },
        r matches Err(e) ==> build_refuses(blocks@, e) && !build_must_accept(blocks@),
        r matches Ok((v, t)) ==> build_accepts(blocks@, v, t),
        r matches Ok((v, t)) ==> {
            &&& spec_parse_blocks(empty_parser(), blocks@) is Ok
            &&& exists|d: FsmDeclarations|
                validated_declarations(spec_parse_blocks(empty_parser(), blocks@)->Ok_0, d)
                    && #[trigger] split_into_regions(d, v)
            &&& table_of(v, t)
        },
{
    let mut parser = FsmParser::new();
    parser.parse(blocks)?;
    let ghost p = parser@;
    proof {
        lemma_parse_blocks_distinct(empty_parser(), blocks@);
    }
    let decl = parser.validate()?;
    let ghost d = decl;
    proof {
        lemma_validated_declarations_wf(p, d);
    }
    if !check_declarations(&decl) {
        return Err(ParseError::Inconsistent);
    }
    let fsm = match create_regions(decl) {
        Ok(v) => v,
        Err(e) => {
            proof {
                if let ParseError::UnreachableState(ty) = e {
                    let i = choose|i: int| 0 <= i < d.states@.len() && d.states@[i].ty == ty && forall|k: int|
                        0 <= k < d.initial_states@.len() ==> !#[trigger] state_reachable(d, k, i);
                    assert(!state_reachable(d, 0, i));
                    assert(validated_declarations(p, d));
                }
                if all_reachable(d) {
                    assert forall|i: int| #![trigger d.states@[i]] 0 <= i < d.states@.len() implies exists|k: int|
                        0 <= k < d.initial_states@.len() && #[trigger] state_reachable(d, k, i) by {
                        assert(state_reachable(d, 0, i));
                    }
                }
            }
            return Err(e);
        },
    };
    proof {
        lemma_validated_machines_have_tables(p, d, fsm);
        assert(validated_declarations(spec_parse_blocks(empty_parser(), blocks@)->Ok_0, d));
        assert(split_into_regions(d, fsm));
    }
    let table = match generate_fsm_table(&fsm) {
        Ok(t) => t,
        Err(e) => {
            return Err(e);
        },
    };
    let r: Result<(ValidatedFsm, FsmTable), ParseError> = Ok((fsm, table));
    assert(r matches Ok((v, t)) && table_of(v, t) && exists|d: FsmDeclarations|
        validated_declarations(spec_parse_blocks(empty_parser(), blocks@)->Ok_0, d)
            && #[trigger] split_into_regions(d, v));
    r
}

} // verus!
