//! The structured report of a failed validation: which section, which record,
//! which field, and what is wrong with it.

use vstd::prelude::*;

verus! {

/// One violated rule.
#[derive(Debug, PartialEq, Eq)]
pub struct ValidationError {
    /// The short name of the rule
    pub code: String,
    /// What to tell the user
    pub message: Option<String>,
}

/// The mathematical value of a [`ValidationError`].
pub struct ValidationErrorView {
    pub code: Seq<char>,
    pub message: Option<Seq<char>>,
}

impl DeepView for ValidationError {
    type V = ValidationErrorView;

    open spec fn deep_view(&self) -> ValidationErrorView {
        ValidationErrorView { code: self.code@, message: self.message.deep_view() }
    }
}

impl View for ValidationError {
    type V = ValidationErrorView;

    open spec fn view(&self) -> ValidationErrorView {
        self.deep_view()
    }
}

/// The violations found in one field of a record. A rule that needs more than
/// one field reports under the field name `__all__`.
#[derive(Debug, PartialEq, Eq)]
pub struct FieldErrors {
    pub field: String,
    pub errors: Vec<ValidationError>,
}

/// The mathematical value of a [`FieldErrors`].
pub struct FieldErrorsView {
    pub field: Seq<char>,
    pub errors: Seq<ValidationErrorView>,
}

impl DeepView for FieldErrors {
    type V = FieldErrorsView;

    open spec fn deep_view(&self) -> FieldErrorsView {
        FieldErrorsView { field: self.field@, errors: self.errors.deep_view() }
    }
}

impl View for FieldErrors {
    type V = FieldErrorsView;

    open spec fn view(&self) -> FieldErrorsView {
        self.deep_view()
    }
}

/// What tells the records of a section apart: the position in a list, or the id in a table.
#[derive(Debug, PartialEq, Eq)]
pub enum RecordKey {
    Index(usize),
    Id(String),
}

/// The mathematical value of a [`RecordKey`].
pub enum RecordKeyView {
    Index(usize),
    Id(Seq<char>),
}

impl DeepView for RecordKey {
    type V = RecordKeyView;

    open spec fn deep_view(&self) -> RecordKeyView {
        match self {
            RecordKey::Index(i) => RecordKeyView::Index(*i),
            RecordKey::Id(id) => RecordKeyView::Id(id@),
        }
    }
}

impl View for RecordKey {
    type V = RecordKeyView;

    open spec fn view(&self) -> RecordKeyView {
        self.deep_view()
    }
}

/// The violations found in one record, field by field.
#[derive(Debug, PartialEq, Eq)]
pub struct RecordErrors {
    pub key: RecordKey,
    pub fields: Vec<FieldErrors>,
}

/// The mathematical value of a [`RecordErrors`].
pub struct RecordErrorsView {
    pub key: RecordKeyView,
    pub fields: Seq<FieldErrorsView>,
}

impl DeepView for RecordErrors {
    type V = RecordErrorsView;

    open spec fn deep_view(&self) -> RecordErrorsView {
        RecordErrorsView { key: self.key@, fields: self.fields.deep_view() }
    }
}

impl View for RecordErrors {
    type V = RecordErrorsView;

    open spec fn view(&self) -> RecordErrorsView {
        self.deep_view()
    }
}

/// What a section of the report holds.
#[derive(Debug, PartialEq, Eq)]
pub enum ValidationErrorsKind {
    /// Violations of the document as a whole
    Field(Vec<ValidationError>),
    /// Violations inside the records of a section, one entry for each record that has any
    Records(Vec<RecordErrors>),
}

/// The mathematical value of a [`ValidationErrorsKind`].
pub enum ValidationErrorsKindView {
    Field(Seq<ValidationErrorView>),
    Records(Seq<RecordErrorsView>),
}

impl DeepView for ValidationErrorsKind {
    type V = ValidationErrorsKindView;

    open spec fn deep_view(&self) -> ValidationErrorsKindView {
        match self {
            ValidationErrorsKind::Field(errors) => ValidationErrorsKindView::Field(errors.deep_view()),
            ValidationErrorsKind::Records(records) => ValidationErrorsKindView::Records(
                records.deep_view(),
            ),
        }
    }
}

impl View for ValidationErrorsKind {
    type V = ValidationErrorsKindView;

    open spec fn view(&self) -> ValidationErrorsKindView {
        self.deep_view()
    }
}

/// Everything that is wrong with a configuration, grouped by section.
///
/// A section that has no violation has no entry, so a report with no entry
/// means a valid configuration.
#[derive(Debug, PartialEq, Eq)]
pub struct ValidationErrors {
    pub sections: Vec<(String, ValidationErrorsKind)>,
}

impl DeepView for ValidationErrors {
    type V = Seq<(Seq<char>, ValidationErrorsKindView)>;

    open spec fn deep_view(&self) -> Seq<(Seq<char>, ValidationErrorsKindView)> {
        self.sections.deep_view()
    }
}

impl View for ValidationErrors {
    type V = Seq<(Seq<char>, ValidationErrorsKindView)>;

    open spec fn view(&self) -> Seq<(Seq<char>, ValidationErrorsKindView)> {
        self.deep_view()
    }
}

/// The first entry of a report for the section `name`, if there is one.
pub open spec fn section_of(
    report: Seq<(Seq<char>, ValidationErrorsKindView)>,
    name: Seq<char>,
) -> Option<ValidationErrorsKindView> {
    match report.map_values(|s: (Seq<char>, ValidationErrorsKindView)| s.0).index_of_first(name) {
        Some(i) => Some(report[i].1),
        None => None,
    }
}

impl ValidationErrors {
    /// Whether the report has no entry.
    pub fn is_empty(&self) -> (empty: bool)
        ensures
            empty == (self@.len() == 0),
    {
        self.sections.len() == 0
    }

    /// The violations reported for the section `name`.
    pub fn get(&self, name: &str) -> (found: Option<&ValidationErrorsKind>)
        ensures
            found.deep_view() == section_of(self@, name@),
    {
        let ghost names = self@.map_values(|s: (Seq<char>, ValidationErrorsKindView)| s.0);
        let mut i: usize = 0;
        while i < self.sections.len()
            invariant
                i <= self.sections@.len(),
                names == self@.map_values(|s: (Seq<char>, ValidationErrorsKindView)| s.0),
                forall|j: int| 0 <= j < i ==> names[j] != name@,
            decreases self.sections@.len() - i,
        {
            if crate::text::str_eq(self.sections[i].0.as_str(), name) {
                proof {
                    assert(names[i as int] == name@);
                    names.index_of_first_ensures(name@);
                }
                return Some(&self.sections[i].1);
            }
            assert(names[i as int] != name@);
            i += 1;
        }
        proof {
            names.index_of_first_ensures(name@);
        }
        None
    }
}

} // verus!
