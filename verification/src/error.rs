//! What can stop the assembler, and how it is reported.

use vstd::prelude::*;

verus! {

/// The reason why the assembler stopped.
#[derive(Clone, Copy, Debug, PartialEq, Eq, Structural)]
pub enum ErrorKind {
    /// The numeral of an `@` instruction is above the largest address.
    AddressOutOfRange,
    /// The text after `;` is no jump mnemonic.
    InvalidJump,
    /// The computation of a C-type instruction is none of the known forms.
    InvalidComputation,
    /// A line opens a label with `(` and does not close it with `)`.
    MalformedLabel,
    /// A label gives a name that is bound an address other than its own.
    SymbolRedefined,
    /// A new variable was met when no data address was left to give out.
    OutOfVariables,
}

/// A failure as the contracts speak of it: its kind and the offending text.
pub struct Failure {
    pub kind: ErrorKind,
    pub token: Seq<char>,
}

/// A failure of the assembler: its kind and the token that caused it.
#[derive(Debug, PartialEq, Eq)]
pub struct AssembleError {
    pub kind: ErrorKind,
    pub token: String,
}

impl View for AssembleError {
    type V = Failure;

    open spec fn view(&self) -> Failure {
        Failure { kind: self.kind, token: self.token@ }
    }
}

/// The sentence that reports `failure`.
pub open spec fn message_text(failure: Failure) -> Seq<char> {
    match failure.kind {
        ErrorKind::AddressOutOfRange => "The value "@ + failure.token
            + " is too big to use in an A instruction."@,
        ErrorKind::InvalidJump => failure.token + " is not a valid jump code"@,
        ErrorKind::InvalidComputation => failure.token + " is an invalid opcode"@,
        ErrorKind::MalformedLabel => failure.token + " is not a complete label"@,
        ErrorKind::SymbolRedefined => failure.token + " is already bound to another address"@,
        ErrorKind::OutOfVariables => "No data address is left for the variable "@ + failure.token,
    }
}

impl AssembleError {
    /// A failure of the given kind, caused by `token`.
    pub fn new(kind: ErrorKind, token: String) -> (error: AssembleError)
        ensures
            error@ == (Failure { kind, token: token@ }),
    {
        AssembleError { kind, token }
    }

    /// The sentence that reports this failure. It names the offending token.
    pub fn message(&self) -> (text: String)
        ensures
            text@ == message_text(self@),
    {
        let mut text = String::new();
        match self.kind {
            ErrorKind::AddressOutOfRange => {
                text.append("The value ");
                text.append(self.token.as_str());
                text.append(" is too big to use in an A instruction.");
            },
            ErrorKind::InvalidJump => {
                text.append(self.token.as_str());
                text.append(" is not a valid jump code");
            },
            ErrorKind::InvalidComputation => {
                text.append(self.token.as_str());
                text.append(" is an invalid opcode");
            },
            ErrorKind::MalformedLabel => {
                text.append(self.token.as_str());
                text.append(" is not a complete label");
            },
            ErrorKind::SymbolRedefined => {
                text.append(self.token.as_str());
                text.append(" is already bound to another address");
            },
            ErrorKind::OutOfVariables => {
                text.append("No data address is left for the variable ");
                text.append(self.token.as_str());
            },
        }
        assert(Seq::<char>::empty() + "The value "@ =~= "The value "@);
        assert(Seq::<char>::empty() + self.token@ =~= self.token@);
        assert(Seq::<char>::empty() + "No data address is left for the variable "@
            =~= "No data address is left for the variable "@);
        text
    }
}

} // verus!
