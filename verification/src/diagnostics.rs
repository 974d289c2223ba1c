//! Reported errors.
use crate::datum::{put, Datum};
use crate::ids::Span;
use vstd::prelude::*;

verus! {

/// A position with a remark.
#[derive(Debug)]
pub struct Label {
    pub span: Span,
    pub text: String,
}

impl DeepView for Label {
    type V = (Span, Seq<char>);

    open spec fn deep_view(&self) -> (Span, Seq<char>) {
        (self.span, self.text@)
    }
}

/// An error with its positions.
#[derive(Debug)]
pub struct Diagnostic {
    pub message: String,
    pub labels: Vec<Label>,
    pub hint: Option<String>,
}

/// What a [`Diagnostic`] says.
pub struct Diag {
    pub message: Seq<char>,
    pub labels: Seq<(Span, Seq<char>)>,
    pub hint: Option<Seq<char>>,
}

impl DeepView for Diagnostic {
    type V = Diag;

    open spec fn deep_view(&self) -> Diag {
        Diag { message: self.message@, labels: self.labels.deep_view(), hint: self.hint.deep_view() }
    }
}

/// An error with one position.
pub open spec fn diag(message: Seq<char>, span: Span, label: Seq<char>) -> Diag {
    Diag { message, labels: seq![(span, label)], hint: None }
}

/// An error with two positions.
pub open spec fn diag2(message: Seq<char>, span: Span, label: Seq<char>, span2: Span, label2: Seq<char>) -> Diag {
    Diag { message, labels: seq![(span, label), (span2, label2)], hint: None }
}

/// Reports an error with one position.
pub fn report(diags: &mut Vec<Diagnostic>, message: &str, span: Span, label: &str)
    ensures
        final(diags).deep_view() == old(diags).deep_view().push(diag(message@, span, label@)),
{
    let mut labels: Vec<Label> = Vec::new();
    labels.push(Label { span, text: label.to_owned() });
    let d = Diagnostic { message: message.to_owned(), labels, hint: None };
    proof {
        assert(d.labels.deep_view() =~= seq![(span, label@)]);
    }
    put(diags, d);
}

/// Reports an error with one position and a hint.
pub fn report_hint(diags: &mut Vec<Diagnostic>, message: &str, span: Span, label: &str, hint: &str)
    ensures
        final(diags).deep_view() == old(diags).deep_view().push(
            Diag { hint: Some(hint@), ..diag(message@, span, label@) },
        ),
{
    let mut labels: Vec<Label> = Vec::new();
    labels.push(Label { span, text: label.to_owned() });
    let d = Diagnostic { message: message.to_owned(), labels, hint: Some(hint.to_owned()) };
    proof {
        assert(d.labels.deep_view() =~= seq![(span, label@)]);
    }
    put(diags, d);
}

/// Reports an error with two positions.
pub fn report2(diags: &mut Vec<Diagnostic>, message: &str, span: Span, label: &str, span2: Span, label2: &str)
    ensures
        final(diags).deep_view() == old(diags).deep_view().push(
            diag2(message@, span, label@, span2, label2@),
        ),
{
    let mut labels: Vec<Label> = Vec::new();
    labels.push(Label { span, text: label.to_owned() });
    labels.push(Label { span: span2, text: label2.to_owned() });
    let d = Diagnostic { message: message.to_owned(), labels, hint: None };
    proof {
        assert(d.labels.deep_view() =~= seq![(span, label@), (span2, label2@)]);
    }
    put(diags, d);
}

} // verus!
