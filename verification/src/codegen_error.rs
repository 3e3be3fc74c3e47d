//! Errors of the code generator, and their messages.

use vstd::prelude::*;
use crate::strbuf::push_str;

verus! {

broadcast use vstd::string::group_string_axioms;

/// An error found while generating code.
#[derive(Debug)]
pub enum CodegenError {
    TypeNotFound(String),
    FunctionNotFound(String),
    VariableNotFound(String),
    /// Invalid left-hand side in an assignment.
    InvalidLHS,
    UnsupportedExpr(String),
    UnsupportedStmt(String),
    Internal(String),
}

/// The message of an error: a fixed phrase, then `: ` and the detail it carries.
pub open spec fn codegen_message(e: CodegenError) -> Seq<char> {
    match e {
        CodegenError::TypeNotFound(name) => "type not found: "@ + name@,
        CodegenError::FunctionNotFound(name) => "function not found: "@ + name@,
        CodegenError::VariableNotFound(name) => "variable not found: "@ + name@,
        CodegenError::InvalidLHS => "invalid left-hand side in assignment"@,
        CodegenError::UnsupportedExpr(msg) => "unsupported expression: "@ + msg@,
        CodegenError::UnsupportedStmt(msg) => "unsupported statement: "@ + msg@,
        CodegenError::Internal(msg) => "internal error: "@ + msg@,
    }
}

impl CodegenError {
    /// The error message, without location.
    pub fn message(&self) -> (r: String)
        ensures
            r@ == codegen_message(*self),
    {
        let mut out = String::new();
        match self {
            CodegenError::TypeNotFound(name) => {
                push_str(&mut out, "type not found: ");
                push_str(&mut out, name.as_str());
            },
            CodegenError::FunctionNotFound(name) => {
                push_str(&mut out, "function not found: ");
                push_str(&mut out, name.as_str());
            },
            CodegenError::VariableNotFound(name) => {
                push_str(&mut out, "variable not found: ");
                push_str(&mut out, name.as_str());
            },
            CodegenError::InvalidLHS => {
                push_str(&mut out, "invalid left-hand side in assignment");
            },
            CodegenError::UnsupportedExpr(msg) => {
                push_str(&mut out, "unsupported expression: ");
                push_str(&mut out, msg.as_str());
            },
            CodegenError::UnsupportedStmt(msg) => {
                push_str(&mut out, "unsupported statement: ");
                push_str(&mut out, msg.as_str());
            },
            CodegenError::Internal(msg) => {
                push_str(&mut out, "internal error: ");
                push_str(&mut out, msg.as_str());
            },
        }
        out
    }
}

} // verus!
