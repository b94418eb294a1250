//! The failures that end a compilation. Every one is fatal: the first
//! violation met stops the pass and nothing of the plugin is produced.

use vstd::prelude::*;
use vstd::string::*;

verus! {

/// Why a compilation was rejected.
#[derive(Clone, Copy, PartialEq, Eq, Structural, Debug)]
pub enum ErrorKind {
    /// A recognised tag carries tokens of the wrong number or shape.
    MalformedTag,
    /// The tag's name is not part of the grammar.
    UnknownTag,
    /// `priority`, `before`, `after` or `pipe` on a unit that is no
    /// scheduled system.
    OrderingOnNonSystem,
    /// `before`, `after` or `pipe` names a system that is not scheduled in
    /// the same phase.
    UnresolvedOrderingReference,
    /// A prefab scope that is neither `global` nor `local`.
    UnknownScopeKind,
    /// A second kind-determining tag on one unit.
    DuplicateClassification,
}

/// The single diagnostic of a rejected compilation: what went wrong, on
/// which declaration, and under which tag.
#[derive(Debug, PartialEq, Eq)]
pub struct CompileError {
    pub kind: ErrorKind,
    pub declaration: String,
    pub tag: String,
}

/// The mathematical value of a [`CompileError`].
pub struct CompileErrorModel {
    pub kind: ErrorKind,
    pub declaration: Seq<char>,
    pub tag: Seq<char>,
}

impl View for CompileError {
    type V = CompileErrorModel;

    open spec fn view(&self) -> CompileErrorModel {
        CompileErrorModel { kind: self.kind, declaration: self.declaration@, tag: self.tag@ }
    }
}

impl CompileError {
    /// The diagnostic of `kind` for tag `tag` of declaration `declaration`.
    pub fn new(kind: ErrorKind, declaration: &str, tag: &str) -> (error: CompileError)
        ensures
            error@ == (CompileErrorModel { kind, declaration: declaration@, tag: tag@ }),
    {
        CompileError { kind, declaration: String::from_str(declaration), tag: String::from_str(tag) }
    }

    /// The name of the failure, as the diagnostic prints it.
    pub fn kind_name(&self) -> (name: &'static str)
        ensures
            name@ == kind_label(self.kind),
    {
        match self.kind {
            ErrorKind::MalformedTag => "MalformedTag",
            ErrorKind::UnknownTag => "UnknownTag",
            ErrorKind::OrderingOnNonSystem => "OrderingOnNonSystem",
            ErrorKind::UnresolvedOrderingReference => "UnresolvedOrderingReference",
            ErrorKind::UnknownScopeKind => "UnknownScopeKind",
            ErrorKind::DuplicateClassification => "DuplicateClassification",
        }
    }

    /// The diagnostic as one line of text: the failure's name, the
    /// declaration, and the tag.
    pub fn message(&self) -> (line: String)
        ensures
            line@ == kind_label(self.kind) + " in `"@ + self.declaration@ + "`: tag `"@ + self.tag@
                + "`"@,
    {
        let mut line = String::from_str(self.kind_name());
        line.append(" in `");
        line.append(self.declaration.as_str());
        line.append("`: tag `");
        line.append(self.tag.as_str());
        line.append("`");
        line
    }
}

/// The printed name of each failure.
pub open spec fn kind_label(kind: ErrorKind) -> Seq<char> {
    match kind {
        ErrorKind::MalformedTag => "MalformedTag"@,
        ErrorKind::UnknownTag => "UnknownTag"@,
        ErrorKind::OrderingOnNonSystem => "OrderingOnNonSystem"@,
        ErrorKind::UnresolvedOrderingReference => "UnresolvedOrderingReference"@,
        ErrorKind::UnknownScopeKind => "UnknownScopeKind"@,
        ErrorKind::DuplicateClassification => "DuplicateClassification"@,
    }
}

} // verus!
