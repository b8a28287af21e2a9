//! Diagnostics: an error report with a code, a primary span, a message and a
//! list of labels, notes and help texts. Rendering a diagnostic to a terminal
//! happens outside the library; here a diagnostic is plain data.

use crate::source_span::Span;
use vstd::prelude::*;
use vstd::string::*;

verus! {

/// How a label is highlighted when the diagnostic is rendered.
#[derive(Clone, Copy, Debug, PartialEq, Eq, Structural)]
pub enum LabelKind {
    /// A label added with `with_label`.
    Plain,
    /// A label that points at the offending code.
    Error,
    /// A label that gives context, such as where something was defined.
    Info,
}

/// One extra piece of a diagnostic.
#[derive(Debug)]
pub enum Element<'src> {
    Label { message: String, span: Span<'src>, kind: LabelKind },
    Note(String),
    Help(String),
}

/// The abstract content of an element: its variant, its text and, for a label,
/// its span and kind.
pub ghost enum ElementView<'src> {
    Label { message: Seq<char>, span: Span<'src>, kind: LabelKind },
    Note(Seq<char>),
    Help(Seq<char>),
}

impl<'src> View for Element<'src> {
    type V = ElementView<'src>;

    open spec fn view(&self) -> ElementView<'src> {
        match self {
            Element::Label { message, span, kind } => ElementView::Label {
                message: message@,
                span: *span,
                kind: *kind,
            },
            Element::Note(n) => ElementView::Note(n@),
            Element::Help(h) => ElementView::Help(h@),
        }
    }
}

pub struct Diagnostic<'src> {
    pub code: &'static str,
    pub span: Span<'src>,
    pub message: String,
    pub elements: Vec<Element<'src>>,
}

/// The abstract content of a diagnostic.
pub ghost struct DiagnosticView<'src> {
    pub code: Seq<char>,
    pub span: Span<'src>,
    pub message: Seq<char>,
    pub elements: Seq<ElementView<'src>>,
}

impl<'src> DiagnosticView<'src> {
    /// The same diagnostic with one more element at the end.
    pub open spec fn with(self, element: ElementView<'src>) -> DiagnosticView<'src> {
        DiagnosticView { elements: self.elements.push(element), ..self }
    }

    /// The same diagnostic with one more label that points at the offending code.
    pub open spec fn with_error_label(self, span: Span<'src>, message: Seq<char>) -> DiagnosticView<'src> {
        self.with(ElementView::Label { message, span, kind: LabelKind::Error })
    }

    /// The same diagnostic with one more label that gives context.
    pub open spec fn with_info_label(self, span: Span<'src>, message: Seq<char>) -> DiagnosticView<'src> {
        self.with(ElementView::Label { message, span, kind: LabelKind::Info })
    }

    /// The same diagnostic with one more help text.
    pub open spec fn with_help(self, help: Seq<char>) -> DiagnosticView<'src> {
        self.with(ElementView::Help(help))
    }
}

/// An error diagnostic without a code and without elements.
pub open spec fn error_view<'src>(span: Span<'src>, message: Seq<char>) -> DiagnosticView<'src> {
    DiagnosticView { code: ""@, span, message, elements: Seq::empty() }
}

impl<'src> View for Diagnostic<'src> {
    type V = DiagnosticView<'src>;

    open spec fn view(&self) -> DiagnosticView<'src> {
        DiagnosticView {
            code: self.code@,
            span: self.span,
            message: self.message@,
            elements: self.elements@.map_values(|e: Element<'src>| e@),
        }
    }
}

impl<'src> Diagnostic<'src> {
    /// The elements of the diagnostic, in the order they were added.
    pub open spec fn elements_view(&self) -> Seq<ElementView<'src>> {
        self.elements@.map_values(|e: Element<'src>| e@)
    }

    pub fn new(code: &'static str, span: Span<'src>, message: &str) -> (d: Self)
        ensures
            d.code == code,
            d.span == span,
            d.message@ == message@,
            d.elements_view() == Seq::<ElementView<'src>>::empty(),
    {
        let d = Self { code, span, message: String::from_str(message), elements: Vec::new() };
        assert(d.elements_view() =~= Seq::<ElementView<'src>>::empty());
        d
    }

    /// An error diagnostic without a code.
    pub fn error(span: Span<'src>, message: &str) -> (d: Self)
        ensures
            d.code == "",
            d.span == span,
            d.message@ == message@,
            d.elements_view() == Seq::<ElementView<'src>>::empty(),
    {
        Self::new("", span, message)
    }

    fn push_element(self, element: Element<'src>) -> (d: Self)
        ensures
            d.code == self.code,
            d.span == self.span,
            d.message@ == self.message@,
            d.elements_view() == self.elements_view().push(element@),
    {
        let Diagnostic { code, span, message, mut elements } = self;
        elements.push(element);
        let d = Diagnostic { code, span, message, elements };
        assert(d.elements_view() =~= self.elements_view().push(element@));
        d
    }

    pub fn with_help(self, help: &str) -> (d: Diagnostic<'src>)
        ensures
            d.code == self.code,
            d.span == self.span,
            d.message@ == self.message@,
            d.elements_view() == self.elements_view().push(ElementView::Help(help@)),
    {
        self.push_element(Element::Help(String::from_str(help)))
    }

    pub fn with_note(self, note: &str) -> (d: Diagnostic<'src>)
        ensures
            d.code == self.code,
            d.span == self.span,
            d.message@ == self.message@,
            d.elements_view() == self.elements_view().push(ElementView::Note(note@)),
    {
        self.push_element(Element::Note(String::from_str(note)))
    }

    pub fn with_label(self, message: &str, span: Span<'src>) -> (d: Self)
        ensures
            d.code == self.code,
            d.span == self.span,
            d.message@ == self.message@,
            d.elements_view() == self.elements_view().push(
                ElementView::Label { message: message@, span, kind: LabelKind::Plain },
            ),
    {
        self.push_element(
            Element::Label { message: String::from_str(message), span, kind: LabelKind::Plain },
        )
    }

    /// Adds a label that points at the offending code.
    pub fn with_error_label(self, span: Span<'src>, message: &str) -> (d: Self)
        ensures
            d.code == self.code,
            d.span == self.span,
            d.message@ == self.message@,
            d.elements_view() == self.elements_view().push(
                ElementView::Label { message: message@, span, kind: LabelKind::Error },
            ),
    {
        self.push_element(
            Element::Label { message: String::from_str(message), span, kind: LabelKind::Error },
        )
    }

    /// Adds a label that gives context.
    pub fn with_info_label(self, span: Span<'src>, message: &str) -> (d: Self)
        ensures
            d.code == self.code,
            d.span == self.span,
            d.message@ == self.message@,
            d.elements_view() == self.elements_view().push(
                ElementView::Label { message: message@, span, kind: LabelKind::Info },
            ),
    {
        self.push_element(
            Element::Label { message: String::from_str(message), span, kind: LabelKind::Info },
        )
    }

    /// The elements of the diagnostic, for rendering.
    pub fn elements(&self) -> (e: &Vec<Element<'src>>)
        ensures
            e@.map_values(|x: Element<'src>| x@) == self.elements_view(),
    {
        &self.elements
    }
}

/// Something that can be reported as a diagnostic.
pub trait IntoDiagnostic<'src> {
    fn into_diagnostic(&self) -> Diagnostic<'src>;
}

/// Adding help and notes to the error of a result.
pub trait ResultExt<'src, T>: Sized {
    fn add_help(self, help: &str) -> Result<T, Diagnostic<'src>>;

    fn add_note(self, note: &str) -> Result<T, Diagnostic<'src>>;
}

impl<'src, T> ResultExt<'src, T> for Result<T, Diagnostic<'src>> {
    fn add_help(self, help: &str) -> (r: Result<T, Diagnostic<'src>>)
        ensures
            self is Ok ==> r == self,
            self matches Err(e) ==> r matches Err(d) && d.code == e.code && d.span == e.span
                && d.message@ == e.message@ && d.elements_view() == e.elements_view().push(
                ElementView::Help(help@),
            ),
    {
        match self {
            Ok(ok) => Ok(ok),
            Err(e) => Err(e.with_help(help)),
        }
    }

    fn add_note(self, note: &str) -> (r: Result<T, Diagnostic<'src>>)
        ensures
            self is Ok ==> r == self,
            self matches Err(e) ==> r matches Err(d) && d.code == e.code && d.span == e.span
                && d.message@ == e.message@ && d.elements_view() == e.elements_view().push(
                ElementView::Note(note@),
            ),
    {
        match self {
            Ok(ok) => Ok(ok),
            Err(e) => Err(e.with_note(note)),
        }
    }
}

/// Adding elements never changes the code, the span or the message, and keeps
/// the elements added before in front, in their order.
pub proof fn law_elements_append_only<'src>(
    d: Diagnostic<'src>,
    e: Diagnostic<'src>,
    added: ElementView<'src>,
)
    requires
        e.code == d.code,
        e.span == d.span,
        e.message@ == d.message@,
        e.elements_view() == d.elements_view().push(added),
    ensures
        e.elements_view().len() == d.elements_view().len() + 1,
        e.elements_view().subrange(0, d.elements_view().len() as int) == d.elements_view(),
        e.elements_view().last() == added,
{
    assert(e.elements_view().subrange(0, d.elements_view().len() as int) =~= d.elements_view());
}

} // verus!
