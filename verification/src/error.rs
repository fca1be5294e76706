//! What is reported of a term that is rejected.

use crate::context::Context;
use crate::syntax::{BinOp, Expr, Label, Term};
use vstd::prelude::*;

verus! {

/// The names of a list of labels.
pub open spec fn label_names(s: Seq<Label>) -> Seq<Seq<char>> {
    Seq::new(s.len(), |i: int| s[i]@)
}

/// What went wrong, with the terms that an explanation needs.
#[derive(Debug, PartialEq, Eq)]
pub enum TypeMessage {
    /// A variable that no binder in force binds.
    UnboundVariable,
    /// The type of a function's input, whose own type is no universe.
    InvalidInputType(Expr),
    /// The type of a function's output, whose own type is no universe.
    InvalidOutputType(Expr),
    /// An applied term and its type, which is no function type.
    NotAFunction(Expr, Expr),
    /// A function, the input type it expects, the argument, and the argument's type.
    TypeMismatch(Expr, Expr, Expr, Expr),
    /// An annotated term, the declared type, and the inferred type.
    AnnotMismatch(Expr, Expr, Expr),
    /// The universe `Kind`, which has no type.
    Untyped,
    /// The position of a list element, the type of the list's elements, the element, and its type.
    InvalidListElement(usize, Expr, Expr, Expr),
    /// A list's element type that is no type of terms.
    InvalidListType(Expr),
    /// The declared type of an optional value, the value, and its type.
    InvalidOptionalElement(Expr, Expr, Expr),
    /// The number of elements of an optional literal that has more than one.
    InvalidOptionalLiteral(usize),
    /// An optional value's type that is no type of terms.
    InvalidOptionalType(Expr),
    /// The condition of an `if` and its type, which is not `Bool`.
    InvalidPredicate(Expr, Expr),
    /// The two branches of an `if` and their types, which differ.
    IfBranchMismatch(Expr, Expr, Expr, Expr),
    /// Whether it is the first branch, the branch, its type, and that type's type, which is not `Type`.
    IfBranchMustBeTerm(bool, Expr, Expr, Expr),
    /// A field of a record literal whose value is no term.
    InvalidField(Label, Expr),
    /// A field of a record type whose type is no type of terms.
    InvalidFieldType(Label, Expr),
    /// An alternative of a union literal whose value is no term.
    InvalidAlternative(Label, Expr),
    /// An alternative of a union type whose type is no type of terms.
    InvalidAlternativeType(Label, Expr),
    /// A label that names two alternatives of one union.
    DuplicateAlternative(Label),
    /// An operand of a record operator and its type, which is no record.
    MustCombineARecord(Expr, Expr),
    /// A field that both operands of a record operator have.
    FieldCollision(Label),
    /// The handlers of a merge and their type, which is no record.
    MustMergeARecord(Expr, Expr),
    /// The subject of a merge and its type, which is no union.
    MustMergeUnion(Expr, Expr),
    /// Handlers of a merge that match no alternative.
    UnusedHandler(Vec<Label>),
    /// Alternatives of a merge that no handler matches.
    MissingHandler(Vec<Label>),
    /// A handler, the input type that its alternative asks for, and the one it has.
    HandlerInputTypeMismatch(Label, Expr, Expr),
    /// A handler, the output type that the merge asks for, and the one it has.
    HandlerOutputTypeMismatch(Label, Expr, Expr),
    /// A handler and its type, which is no function type.
    HandlerNotAFunction(Label, Expr),
    /// A field, the term it is selected from, and that term's type, which is no record type.
    NotARecord(Label, Expr, Expr),
    /// A field and the record type that lacks it.
    MissingField(Label, Expr),
    /// An operator, one of its operands, and the operand's type, which is not the one the operator takes.
    BinOpTypeMismatch(BinOp, Expr, Expr),
    /// The type of a `let`'s bound term and the type of its body, where the body is a type that would depend on a term.
    NoDependentLet(Expr, Expr),
    /// The input and output types of a function type whose output would be a type that depends on a term.
    NoDependentTypes(Expr, Expr),
    /// Nothing was decided: the depth allowed for the judgements was used up, or the index of a variable left the range of `usize`.
    LimitExceeded,
}

/// A [`TypeMessage`] as a mathematical value.
pub enum Message {
    UnboundVariable,
    InvalidInputType(Term),
    InvalidOutputType(Term),
    NotAFunction(Term, Term),
    TypeMismatch(Term, Term, Term, Term),
    AnnotMismatch(Term, Term, Term),
    Untyped,
    InvalidListElement(int, Term, Term, Term),
    InvalidListType(Term),
    InvalidOptionalElement(Term, Term, Term),
    InvalidOptionalLiteral(int),
    InvalidOptionalType(Term),
    InvalidPredicate(Term, Term),
    IfBranchMismatch(Term, Term, Term, Term),
    IfBranchMustBeTerm(bool, Term, Term, Term),
    InvalidField(Seq<char>, Term),
    InvalidFieldType(Seq<char>, Term),
    InvalidAlternative(Seq<char>, Term),
    InvalidAlternativeType(Seq<char>, Term),
    DuplicateAlternative(Seq<char>),
    MustCombineARecord(Term, Term),
    FieldCollision(Seq<char>),
    MustMergeARecord(Term, Term),
    MustMergeUnion(Term, Term),
    UnusedHandler(Seq<Seq<char>>),
    MissingHandler(Seq<Seq<char>>),
    HandlerInputTypeMismatch(Seq<char>, Term, Term),
    HandlerOutputTypeMismatch(Seq<char>, Term, Term),
    HandlerNotAFunction(Seq<char>, Term),
    NotARecord(Seq<char>, Term, Term),
    MissingField(Seq<char>, Term),
    BinOpTypeMismatch(BinOp, Term, Term),
    NoDependentLet(Term, Term),
    NoDependentTypes(Term, Term),
    LimitExceeded,
}

impl View for TypeMessage {
    type V = Message;

    open spec fn view(&self) -> Message {
        match self {
            TypeMessage::UnboundVariable => Message::UnboundVariable,
            TypeMessage::InvalidInputType(a) => Message::InvalidInputType(a@),
            TypeMessage::InvalidOutputType(a) => Message::InvalidOutputType(a@),
            TypeMessage::NotAFunction(a, b) => Message::NotAFunction(a@, b@),
            TypeMessage::TypeMismatch(a, b, c, d) => Message::TypeMismatch(a@, b@, c@, d@),
            TypeMessage::AnnotMismatch(a, b, c) => Message::AnnotMismatch(a@, b@, c@),
            TypeMessage::Untyped => Message::Untyped,
            TypeMessage::InvalidListElement(a, b, c, d) => Message::InvalidListElement(*a as int, b@, c@, d@),
            TypeMessage::InvalidListType(a) => Message::InvalidListType(a@),
            TypeMessage::InvalidOptionalElement(a, b, c) => Message::InvalidOptionalElement(a@, b@, c@),
            TypeMessage::InvalidOptionalLiteral(a) => Message::InvalidOptionalLiteral(*a as int),
            TypeMessage::InvalidOptionalType(a) => Message::InvalidOptionalType(a@),
            TypeMessage::InvalidPredicate(a, b) => Message::InvalidPredicate(a@, b@),
            TypeMessage::IfBranchMismatch(a, b, c, d) => Message::IfBranchMismatch(a@, b@, c@, d@),
            TypeMessage::IfBranchMustBeTerm(a, b, c, d) => Message::IfBranchMustBeTerm(*a, b@, c@, d@),
            TypeMessage::InvalidField(a, b) => Message::InvalidField(a@, b@),
            TypeMessage::InvalidFieldType(a, b) => Message::InvalidFieldType(a@, b@),
            TypeMessage::InvalidAlternative(a, b) => Message::InvalidAlternative(a@, b@),
            TypeMessage::InvalidAlternativeType(a, b) => Message::InvalidAlternativeType(a@, b@),
            TypeMessage::DuplicateAlternative(a) => Message::DuplicateAlternative(a@),
            TypeMessage::MustCombineARecord(a, b) => Message::MustCombineARecord(a@, b@),
            TypeMessage::FieldCollision(a) => Message::FieldCollision(a@),
            TypeMessage::MustMergeARecord(a, b) => Message::MustMergeARecord(a@, b@),
            TypeMessage::MustMergeUnion(a, b) => Message::MustMergeUnion(a@, b@),
            TypeMessage::UnusedHandler(a) => Message::UnusedHandler(label_names(a@)),
            TypeMessage::MissingHandler(a) => Message::MissingHandler(label_names(a@)),
            TypeMessage::HandlerInputTypeMismatch(a, b, c) => Message::HandlerInputTypeMismatch(a@, b@, c@),
            TypeMessage::HandlerOutputTypeMismatch(a, b, c) => Message::HandlerOutputTypeMismatch(a@, b@, c@),
            TypeMessage::HandlerNotAFunction(a, b) => Message::HandlerNotAFunction(a@, b@),
            TypeMessage::NotARecord(a, b, c) => Message::NotARecord(a@, b@, c@),
            TypeMessage::MissingField(a, b) => Message::MissingField(a@, b@),
            TypeMessage::BinOpTypeMismatch(a, b, c) => Message::BinOpTypeMismatch(*a, b@, c@),
            TypeMessage::NoDependentLet(a, b) => Message::NoDependentLet(a@, b@),
            TypeMessage::NoDependentTypes(a, b) => Message::NoDependentTypes(a@, b@),
            TypeMessage::LimitExceeded => Message::LimitExceeded,
        }
    }
}

/// The terms that a message carries, in the order of the slots of its template.
pub open spec fn message_terms(m: Message) -> Seq<Term> {
    match m {
        Message::UnboundVariable => Seq::empty(),
        Message::InvalidInputType(a) => seq![a],
        Message::InvalidOutputType(a) => seq![a],
        Message::NotAFunction(a, b) => seq![a, b],
        Message::TypeMismatch(a, b, c, d) => seq![a, b, c, d],
        Message::AnnotMismatch(a, b, c) => seq![a, b, c],
        Message::Untyped => Seq::empty(),
        Message::InvalidListElement(_, b, c, d) => seq![b, c, d],
        Message::InvalidListType(a) => seq![a],
        Message::InvalidOptionalElement(a, b, c) => seq![a, b, c],
        Message::InvalidOptionalLiteral(_) => Seq::empty(),
        Message::InvalidOptionalType(a) => seq![a],
        Message::InvalidPredicate(a, b) => seq![a, b],
        Message::IfBranchMismatch(a, b, c, d) => seq![a, b, c, d],
        Message::IfBranchMustBeTerm(_, b, c, d) => seq![b, c, d],
        Message::InvalidField(_, b) => seq![b],
        Message::InvalidFieldType(_, b) => seq![b],
        Message::InvalidAlternative(_, b) => seq![b],
        Message::InvalidAlternativeType(_, b) => seq![b],
        Message::DuplicateAlternative(_) => Seq::empty(),
        Message::MustCombineARecord(a, b) => seq![a, b],
        Message::FieldCollision(_) => Seq::empty(),
        Message::MustMergeARecord(a, b) => seq![a, b],
        Message::MustMergeUnion(a, b) => seq![a, b],
        Message::UnusedHandler(_) => Seq::empty(),
        Message::MissingHandler(_) => Seq::empty(),
        Message::HandlerInputTypeMismatch(_, b, c) => seq![b, c],
        Message::HandlerOutputTypeMismatch(_, b, c) => seq![b, c],
        Message::HandlerNotAFunction(_, b) => seq![b],
        Message::NotARecord(_, b, c) => seq![b, c],
        Message::MissingField(_, b) => seq![b],
        Message::BinOpTypeMismatch(_, b, c) => seq![b, c],
        Message::NoDependentLet(a, b) => seq![a, b],
        Message::NoDependentTypes(a, b) => seq![a, b],
        Message::LimitExceeded => Seq::empty(),
    }
}

/// The short description of a message.
pub open spec fn description_text(m: Message) -> Seq<char> {
    match m {
        Message::UnboundVariable => "Unbound variable"@,
        Message::InvalidInputType(_) => "Invalid function input"@,
        Message::InvalidOutputType(_) => "Invalid function output"@,
        Message::NotAFunction(_, _) => "Not a function"@,
        Message::TypeMismatch(_, _, _, _) => "Wrong type of function argument"@,
        _ => "Unhandled error"@,
    }
}

/// The template of the long explanation of a message. A template names the
/// terms of its message by slots, `$txt0` for the first.
pub open spec fn template_text(m: Message) -> Seq<char> {
    match m {
        Message::UnboundVariable =>
            "Error: Unbound variable\n\nAn expression may only mention a variable that a binder around it introduces: the parameter of a function, the input of a function type, or the name of a `let`. This variable is introduced by none of them. The name may be misspelt, or the variable may be used outside the expression that binds it.\n"@,
        Message::TypeMismatch(_, _, _, _) =>
            "Error: Wrong type of function argument\n\nA function can only be applied to an argument whose type is the input type of the function.\n\nYou tried to apply this function:\n\n    $txt0\n\nto this argument:\n\n    $txt2\n\nThe function expects an argument of type:\n\n    $txt1\n\nbut the argument has type:\n\n    $txt3\n"@,
        _ => "Unhandled error message"@,
    }
}

/// The name of the slot for the term at position `i` of a message.
pub open spec fn slot_name(i: int) -> Seq<char> {
    if i == 0 {
        "$txt0"@
    } else if i == 1 {
        "$txt1"@
    } else if i == 2 {
        "$txt2"@
    } else {
        "$txt3"@
    }
}

/// The number of slots that a template can name.
pub const SLOTS: usize = 4;

/// The text that `str::replace` of the standard library gives for `text`, the
/// pattern `from` and the replacement `to`.
pub uninterp spec fn replaced(text: Seq<char>, from: Seq<char>, to: Seq<char>) -> Seq<char>;

/// `text` after the first `n` slots were replaced, one after the other, by the
/// first `n` of the printed terms.
pub open spec fn filled(text: Seq<char>, printed: Seq<Seq<char>>, n: nat) -> Seq<char>
    decreases n,
{
    if n == 0 {
        text
    } else {
        replaced(filled(text, printed, (n - 1) as nat), slot_name(n - 1), printed[n - 1])
    }
}

/// The number of slots that get filled when `given` printed terms are at hand.
pub open spec fn slots_filled(given: nat) -> nat {
    if given < SLOTS {
        given
    } else {
        SLOTS as nat
    }
}

/// Calls `str::replace` of the standard library, which copies `text` and puts
/// `to` in place of the matches of `from`. Nothing is claimed of the result
/// but that it is the one the standard library gives for these three texts.
#[verifier::external_body]
fn replace(text: &str, from: &str, to: &str) -> (res: String)
    ensures
        res@ == replaced(text@, from@, to@),
{
    text.replace(from, to)
}

/// The name of the slot at position `i`.
pub fn slot(i: usize) -> (res: &'static str)
    requires
        i < SLOTS,
    ensures
        res@ == slot_name(i as int),
{
    if i == 0 {
        "$txt0"
    } else if i == 1 {
        "$txt1"
    } else if i == 2 {
        "$txt2"
    } else {
        "$txt3"
    }
}

impl TypeMessage {
    /// A short description of the message.
    pub fn description(&self) -> (res: &'static str)
        ensures
            res@ == description_text(self@),
    {
        match self {
            TypeMessage::UnboundVariable => "Unbound variable",
            TypeMessage::InvalidInputType(_) => "Invalid function input",
            TypeMessage::InvalidOutputType(_) => "Invalid function output",
            TypeMessage::NotAFunction(_, _) => "Not a function",
            TypeMessage::TypeMismatch(_, _, _, _) => "Wrong type of function argument",
            _ => "Unhandled error",
        }
    }

    /// The template of the long explanation of the message.
    pub fn template(&self) -> (res: &'static str)
        ensures
            res@ == template_text(self@),
    {
        match self {
            TypeMessage::UnboundVariable =>
                "Error: Unbound variable\n\nAn expression may only mention a variable that a binder around it introduces: the parameter of a function, the input of a function type, or the name of a `let`. This variable is introduced by none of them. The name may be misspelt, or the variable may be used outside the expression that binds it.\n",
            TypeMessage::TypeMismatch(_, _, _, _) =>
                "Error: Wrong type of function argument\n\nA function can only be applied to an argument whose type is the input type of the function.\n\nYou tried to apply this function:\n\n    $txt0\n\nto this argument:\n\n    $txt2\n\nThe function expects an argument of type:\n\n    $txt1\n\nbut the argument has type:\n\n    $txt3\n",
            _ => "Unhandled error message",
        }
    }

    /// The terms that the message carries, in the order of the slots of its template.
    pub fn slots(&self) -> (res: Vec<Expr>)
        ensures
            Expr::terms(res@) == message_terms(self@),
    {
        let mut out: Vec<Expr> = Vec::new();
        match self {
            TypeMessage::InvalidInputType(a) => {
                out.push(a.clone());
            },
            TypeMessage::InvalidOutputType(a) => {
                out.push(a.clone());
            },
            TypeMessage::NotAFunction(a, b) => {
                out.push(a.clone());
                out.push(b.clone());
            },
            TypeMessage::TypeMismatch(a, b, c, d) => {
                out.push(a.clone());
                out.push(b.clone());
                out.push(c.clone());
                out.push(d.clone());
            },
            TypeMessage::AnnotMismatch(a, b, c) => {
                out.push(a.clone());
                out.push(b.clone());
                out.push(c.clone());
            },
            TypeMessage::InvalidListElement(_, b, c, d) => {
                out.push(b.clone());
                out.push(c.clone());
                out.push(d.clone());
            },
            TypeMessage::InvalidListType(a) => {
                out.push(a.clone());
            },
            TypeMessage::InvalidOptionalElement(a, b, c) => {
                out.push(a.clone());
                out.push(b.clone());
                out.push(c.clone());
            },
            TypeMessage::InvalidOptionalType(a) => {
                out.push(a.clone());
            },
            TypeMessage::InvalidPredicate(a, b) => {
                out.push(a.clone());
                out.push(b.clone());
            },
            TypeMessage::IfBranchMismatch(a, b, c, d) => {
                out.push(a.clone());
                out.push(b.clone());
                out.push(c.clone());
                out.push(d.clone());
            },
            TypeMessage::IfBranchMustBeTerm(_, b, c, d) => {
                out.push(b.clone());
                out.push(c.clone());
                out.push(d.clone());
            },
            TypeMessage::InvalidField(_, b) => {
                out.push(b.clone());
            },
            TypeMessage::InvalidFieldType(_, b) => {
                out.push(b.clone());
            },
            TypeMessage::InvalidAlternative(_, b) => {
                out.push(b.clone());
            },
            TypeMessage::InvalidAlternativeType(_, b) => {
                out.push(b.clone());
            },
            TypeMessage::MustCombineARecord(a, b) => {
                out.push(a.clone());
                out.push(b.clone());
            },
            TypeMessage::MustMergeARecord(a, b) => {
                out.push(a.clone());
                out.push(b.clone());
            },
            TypeMessage::MustMergeUnion(a, b) => {
                out.push(a.clone());
                out.push(b.clone());
            },
            TypeMessage::HandlerInputTypeMismatch(_, b, c) => {
                out.push(b.clone());
                out.push(c.clone());
            },
            TypeMessage::HandlerOutputTypeMismatch(_, b, c) => {
                out.push(b.clone());
                out.push(c.clone());
            },
            TypeMessage::HandlerNotAFunction(_, b) => {
                out.push(b.clone());
            },
            TypeMessage::NotARecord(_, b, c) => {
                out.push(b.clone());
                out.push(c.clone());
            },
            TypeMessage::MissingField(_, b) => {
                out.push(b.clone());
            },
            TypeMessage::BinOpTypeMismatch(_, b, c) => {
                out.push(b.clone());
                out.push(c.clone());
            },
            TypeMessage::NoDependentLet(a, b) => {
                out.push(a.clone());
                out.push(b.clone());
            },
            TypeMessage::NoDependentTypes(a, b) => {
                out.push(a.clone());
                out.push(b.clone());
            },
            _ => {},
        }
        assert(Expr::terms(out@) =~= message_terms(self@));
        out
    }

    /// The long explanation of the message. For a wrong type of function
    /// argument it is the template with each slot replaced by the printed
    /// form of the term at that position: `printed` holds the printed forms
    /// of the terms of [`TypeMessage::slots`], in that order, and a slot for
    /// which none is given stays as it is. For every other message it is the
    /// template as it stands.
    pub fn render(&self, printed: &Vec<String>) -> (res: String)
        ensures
            res@ == rendered_text(self@, label_texts(printed@)),
    {
        let mut text = String::from_str(self.template());
        match self {
            TypeMessage::TypeMismatch(_, _, _, _) => {
                let mut i: usize = 0;
                while i < printed.len() && i < SLOTS
                    invariant
                        i <= printed.len(),
                        i <= SLOTS,
                        text@ == filled(template_text(self@), label_texts(printed@), i as nat),
                    decreases printed.len() - i,
                {
                    text = replace(text.as_str(), slot(i), printed[i].as_str());
                    i += 1;
                }
                text
            },
            _ => text,
        }
    }
}

/// The long explanation of a message, given the printed forms of its terms:
/// the filled template for a wrong type of function argument, and the
/// template as it stands for every other message.
pub open spec fn rendered_text(m: Message, printed: Seq<Seq<char>>) -> Seq<char> {
    match m {
        Message::TypeMismatch(_, _, _, _) => filled(
            template_text(m),
            printed,
            slots_filled(printed.len()),
        ),
        _ => template_text(m),
    }
}

/// The texts of a list of strings.
pub open spec fn label_texts(s: Seq<String>) -> Seq<Seq<char>> {
    Seq::new(s.len(), |i: int| s[i]@)
}

/// A rejected term: the context in which it was checked, the term, and what is
/// wrong with it.
#[derive(Debug, PartialEq, Eq)]
pub struct TypeError {
    pub context: Context,
    pub current: Expr,
    pub type_message: TypeMessage,
}

/// A [`TypeError`] as a mathematical value.
pub struct ErrorModel {
    pub context: Seq<(Seq<char>, Term)>,
    pub current: Term,
    pub message: Message,
}

impl View for TypeError {
    type V = ErrorModel;

    open spec fn view(&self) -> ErrorModel {
        ErrorModel { context: self.context@, current: self.current@, message: self.type_message@ }
    }
}

impl TypeError {
    /// The error that `type_message` describes, for the term `current` checked in `context`.
    pub fn new(context: &Context, current: Expr, type_message: TypeMessage) -> (res: TypeError)
        ensures
            res@ == (ErrorModel {
                context: context@,
                current: current@,
                message: type_message@,
            }),
    {
        TypeError { context: context.clone(), current, type_message }
    }
}

} // verus!
