mod shader_program;

pub use shader_program::{
    attach_steps, attached_events, ends_build_of, event_accepted, holds_program, law_build_ends_with_its_program,
    law_failed_link, law_successful_link, link_transition, link_transition_from, run_accepted, run_link, LinkEvent,
    LinkEventView, LinkPhase, LinkStep, LinkStepView, ProgramLinker,
};

use std::string::FromUtf8Error;
use vstd::prelude::*;
use vstd::utf8::{decode_utf8, valid_utf8};

verus! {

/// `std::string::FromUtf8Error`, the error of `String::from_utf8`; opaque here.
#[verifier::external_type_specification]
#[verifier::external_body]
pub struct ExFromUtf8Error(FromUtf8Error);

/// `String::from_utf8` succeeds exactly on valid UTF-8 and then holds the
/// characters those bytes encode, as its documentation states.
pub assume_specification[ String::from_utf8 ](vec: Vec<u8>) -> (res: Result<String, FromUtf8Error>)
    ensures
        res is Ok <==> valid_utf8(vec@),
        res matches Ok(s) ==> s@ == decode_utf8(vec@),
;

/// What can go wrong when a shader is built or a program is linked.
#[derive(Debug, PartialEq, Eq)]
pub enum ShaderError {
    CompilationError(String),
    LinkingError(String),
    FileNotFoundError,
    OtherError,
}

/// The mathematical value of a [`ShaderError`]: messages as character sequences.
pub enum ShaderErrorView {
    CompilationError(Seq<char>),
    LinkingError(Seq<char>),
    FileNotFoundError,
    OtherError,
}

impl View for ShaderError {
    type V = ShaderErrorView;

    open spec fn view(&self) -> ShaderErrorView {
        match self {
            ShaderError::CompilationError(s) => ShaderErrorView::CompilationError(s@),
            ShaderError::LinkingError(s) => ShaderErrorView::LinkingError(s@),
            ShaderError::FileNotFoundError => ShaderErrorView::FileNotFoundError,
            ShaderError::OtherError => ShaderErrorView::OtherError,
        }
    }
}

/// A log that is not valid UTF-8 cannot be reported as text: it becomes `OtherError`.
impl From<FromUtf8Error> for ShaderError {
    fn from(err: FromUtf8Error) -> (res: ShaderError) {
        ShaderError::OtherError
    }
}

impl vstd::std_specs::convert::FromSpecImpl<FromUtf8Error> for ShaderError {
    open spec fn obeys_from_spec() -> bool {
        true
    }

    open spec fn from_spec(err: FromUtf8Error) -> ShaderError {
        ShaderError::OtherError
    }
}

/// The error a failed link reports, given the bytes of the program's info log:
/// the log as text when it is valid UTF-8, `OtherError` when it is not.
pub open spec fn log_error(log: Seq<u8>) -> ShaderErrorView {
    if valid_utf8(log) {
        ShaderErrorView::LinkingError(decode_utf8(log))
    } else {
        ShaderErrorView::OtherError
    }
}

/// Every info log that is valid UTF-8 is reported whole, as the text it
/// encodes, in a `LinkingError`; only a log that is not valid UTF-8 is
/// reported as `OtherError`.
pub proof fn law_link_log_is_reported(log: Seq<u8>)
    ensures
        valid_utf8(log) ==> log_error(log) == ShaderErrorView::LinkingError(decode_utf8(log)),
        !valid_utf8(log) ==> log_error(log) == ShaderErrorView::OtherError,
{
}

/// Turns the info log of a program that failed to link into its error.
pub fn linking_error(log: Vec<u8>) -> (err: ShaderError)
    ensures
        err@ == log_error(log@),
        valid_utf8(log@) ==> err@ == ShaderErrorView::LinkingError(decode_utf8(log@)),
        !valid_utf8(log@) ==> err@ == ShaderErrorView::OtherError,
{
    match String::from_utf8(log) {
        Ok(text) => ShaderError::LinkingError(text),
        Err(e) => ShaderError::from(e),
    }
}

} // verus!
