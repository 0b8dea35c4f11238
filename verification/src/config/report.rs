//! The validation report as text: one line for each violation.

use vstd::prelude::*;
use crate::config::errors::{
    FieldErrors, FieldErrorsView, RecordErrors, RecordErrorsView, RecordKey, RecordKeyView,
    ValidationError, ValidationErrorView, ValidationErrors, ValidationErrorsKind,
    ValidationErrorsKindView,
};
use crate::text::{decimal, decimal_string, pad_left, pad_left_string};

verus! {

/// What a violation tells the user: its message or, without one, its code.
pub open spec fn message_of(e: ValidationErrorView) -> Seq<char> {
    match e.message {
        Some(m) => m,
        None => e.code,
    }
}

/// How a record is named in the report.
pub open spec fn key_text(key: RecordKeyView) -> Seq<char> {
    match key {
        RecordKeyView::Index(i) => decimal(i as nat),
        RecordKeyView::Id(id) => id,
    }
}

/// The line for a violation inside a record. The record's name is
/// right-aligned in 3 columns and the field's in 10.
pub open spec fn record_line(
    section: Seq<char>,
    key: Seq<char>,
    field: Seq<char>,
    e: ValidationErrorView,
) -> Seq<char> {
    "  "@ + section + " entry "@ + pad_left(key, 3) + ", "@ + pad_left(field, 10) + " field: "@
        + message_of(e) + "\n"@
}

/// The line for a violation of the document as a whole.
pub open spec fn document_line(section: Seq<char>, e: ValidationErrorView) -> Seq<char> {
    "  "@ + section + " entry: "@ + message_of(e) + "\n"@
}

/// The lines for the violations in one field.
pub open spec fn field_lines(section: Seq<char>, key: Seq<char>, f: FieldErrorsView) -> Seq<
    Seq<char>,
> {
    f.errors.map_values(|e: ValidationErrorView| record_line(section, key, f.field, e))
}

/// The lines for the violations in one record, field by field.
pub open spec fn record_lines(section: Seq<char>, r: RecordErrorsView) -> Seq<Seq<char>> {
    r.fields.map_values(|f: FieldErrorsView| field_lines(section, key_text(r.key), f)).flatten()
}

/// The lines for one section.
pub open spec fn section_lines(s: (Seq<char>, ValidationErrorsKindView)) -> Seq<Seq<char>> {
    match s.1 {
        ValidationErrorsKindView::Field(errors) => errors.map_values(
            |e: ValidationErrorView| document_line(s.0, e),
        ),
        ValidationErrorsKindView::Records(records) => records.map_values(
            |r: RecordErrorsView| record_lines(s.0, r),
        ).flatten(),
    }
}

/// The lines for a whole report, section by section.
pub open spec fn report_lines(report: Seq<(Seq<char>, ValidationErrorsKindView)>) -> Seq<Seq<char>> {
    report.map_values(|s: (Seq<char>, ValidationErrorsKindView)| section_lines(s)).flatten()
}

/// The text of a whole report: a heading, then the lines.
pub open spec fn report_text(report: Seq<(Seq<char>, ValidationErrorsKindView)>) -> Seq<char> {
    "Errors found in the configuration file:\n"@ + report_lines(report).flatten()
}

/// Mapping one item more appends that item's image.
proof fn lemma_map_step<A, B>(s: Seq<A>, f: spec_fn(A) -> B, n: int)
    requires
        0 <= n < s.len(),
    ensures
        s.take(n + 1).map_values(f) == s.take(n).map_values(f).push(f(s[n])),
{
    assert(s.take(n + 1).map_values(f) =~= s.take(n).map_values(f).push(f(s[n])));
}

fn message_text(e: &ValidationError) -> (out: &str)
    ensures
        out@ == message_of(e@),
{
    match &e.message {
        Some(m) => m.as_str(),
        None => e.code.as_str(),
    }
}

fn make_record_line(section: &str, key: &str, field: &str, e: &ValidationError) -> (out: String)
    ensures
        out@ == record_line(section@, key@, field@, e@),
{
    let mut out = String::from_str("  ");
    out.append(section);
    out.append(" entry ");
    out.append(pad_left_string(key, 3).as_str());
    out.append(", ");
    out.append(pad_left_string(field, 10).as_str());
    out.append(" field: ");
    out.append(message_text(e));
    out.append("\n");
    out
}

fn make_document_line(section: &str, e: &ValidationError) -> (out: String)
    ensures
        out@ == document_line(section@, e@),
{
    let mut out = String::from_str("  ");
    out.append(section);
    out.append(" entry: ");
    out.append(message_text(e));
    out.append("\n");
    out
}

fn make_field_lines(section: &str, key: &str, f: &FieldErrors) -> (lines: Vec<String>)
    ensures
        lines.deep_view() == field_lines(section@, key@, f@),
{
    let ghost line = |e: ValidationErrorView| record_line(section@, key@, f@.field, e);
    let ghost errors = f@.errors;
    let mut lines: Vec<String> = Vec::new();
    let mut i: usize = 0;
    assert(lines.deep_view() =~= errors.take(0).map_values(line));
    while i < f.errors.len()
        invariant
            errors == f@.errors,
            errors == f.errors.deep_view(),
            line == |e: ValidationErrorView| record_line(section@, key@, f@.field, e),
            i <= f.errors@.len(),
            lines.deep_view() == errors.take(i as int).map_values(line),
        decreases f.errors@.len() - i,
    {
        let ghost before = lines.deep_view();
        let text = make_record_line(section, key, f.field.as_str(), &f.errors[i]);
        lines.push(text);
        proof {
            assert(lines.deep_view() =~= before.push(text@));
            lemma_map_step(errors, line, i as int);
        }
        i += 1;
    }
    assert(errors.take(errors.len() as int) =~= errors);
    lines
}

fn make_record_lines(section: &str, r: &RecordErrors) -> (lines: Vec<String>)
    ensures
        lines.deep_view() == record_lines(section@, r@),
{
    let key = match &r.key {
        RecordKey::Index(i) => decimal_string(*i),
        RecordKey::Id(id) => id.clone(),
    };
    let ghost per_field = |f: FieldErrorsView| field_lines(section@, key_text(r@.key), f);
    let ghost fields = r@.fields;
    let mut lines: Vec<String> = Vec::new();
    let mut i: usize = 0;
    assert(lines.deep_view() =~= fields.take(0).map_values(per_field).flatten());
    while i < r.fields.len()
        invariant
            key@ == key_text(r@.key),
            fields == r@.fields,
            fields == r.fields.deep_view(),
            per_field == |f: FieldErrorsView| field_lines(section@, key_text(r@.key), f),
            i <= r.fields@.len(),
            lines.deep_view() == fields.take(i as int).map_values(per_field).flatten(),
        decreases r.fields@.len() - i,
    {
        let ghost before = lines@;
        let ghost before_view = lines.deep_view();
        let mut more = make_field_lines(section, key.as_str(), &r.fields[i]);
        let ghost added = more@;
        let ghost added_view = more.deep_view();
        lines.append(&mut more);
        proof {
            assert(lines.deep_view() =~= before_view + added_view);
            lemma_map_step(fields, per_field, i as int);
            fields.take(i as int).map_values(per_field).lemma_flatten_push(added_view);
        }
        i += 1;
    }
    assert(fields.take(fields.len() as int) =~= fields);
    lines
}

fn make_section_lines(s: &(String, ValidationErrorsKind)) -> (lines: Vec<String>)
    ensures
        lines.deep_view() == section_lines(s.deep_view()),
{
    let section = s.0.as_str();
    let mut lines: Vec<String> = Vec::new();
    match &s.1 {
        ValidationErrorsKind::Field(list) => {
            let ghost line = |e: ValidationErrorView| document_line(section@, e);
            let ghost errors = list.deep_view();
            let mut i: usize = 0;
            assert(lines.deep_view() =~= errors.take(0).map_values(line));
            while i < list.len()
                invariant
                    errors == list.deep_view(),
                    line == |e: ValidationErrorView| document_line(section@, e),
                    i <= list@.len(),
                    lines.deep_view() == errors.take(i as int).map_values(line),
                decreases list@.len() - i,
            {
                let ghost before = lines.deep_view();
                let text = make_document_line(section, &list[i]);
                lines.push(text);
                proof {
                    assert(lines.deep_view() =~= before.push(text@));
                    lemma_map_step(errors, line, i as int);
                }
                i += 1;
            }
            assert(errors.take(errors.len() as int) =~= errors);
        },
        ValidationErrorsKind::Records(list) => {
            let ghost per_record = |r: RecordErrorsView| record_lines(section@, r);
            let ghost records = list.deep_view();
            let mut i: usize = 0;
            assert(lines.deep_view() =~= records.take(0).map_values(per_record).flatten());
            while i < list.len()
                invariant
                    records == list.deep_view(),
                    per_record == |r: RecordErrorsView| record_lines(section@, r),
                    i <= list@.len(),
                    lines.deep_view() == records.take(i as int).map_values(per_record).flatten(),
                decreases list@.len() - i,
            {
                let ghost before_view = lines.deep_view();
                let mut more = make_record_lines(section, &list[i]);
                let ghost added_view = more.deep_view();
                lines.append(&mut more);
                proof {
                    assert(lines.deep_view() =~= before_view + added_view);
                    lemma_map_step(records, per_record, i as int);
                    records.take(i as int).map_values(per_record).lemma_flatten_push(added_view);
                }
                i += 1;
            }
            assert(records.take(records.len() as int) =~= records);
        },
    }
    lines
}

/// The text of a validation report, for display: a heading, then one line for
/// each violation, in the order of the report.
pub fn format_validation_errors(errors: &ValidationErrors) -> (out: String)
    ensures
        out@ == report_text(errors@),
{
    let ghost per_section = |s: (Seq<char>, ValidationErrorsKindView)| section_lines(s);
    let ghost report = errors@;
    let mut out = String::from_str("Errors found in the configuration file:\n");
    let ghost mut lines: Seq<Seq<char>> = Seq::empty();
    let mut i: usize = 0;
    assert(lines =~= report.take(0).map_values(per_section).flatten());
    assert(out@ =~= "Errors found in the configuration file:\n"@ + lines.flatten());
    while i < errors.sections.len()
        invariant
            report == errors@,
            report == errors.sections.deep_view(),
            per_section == |s: (Seq<char>, ValidationErrorsKindView)| section_lines(s),
            i <= errors.sections@.len(),
            lines == report.take(i as int).map_values(per_section).flatten(),
            out@ == "Errors found in the configuration file:\n"@ + lines.flatten(),
        decreases errors.sections@.len() - i,
    {
        let more = make_section_lines(&errors.sections[i]);
        let ghost added = more.deep_view();
        let ghost start = lines;
        proof {
            lemma_map_step(report, per_section, i as int);
            report.take(i as int).map_values(per_section).lemma_flatten_push(added);
        }
        let mut k: usize = 0;
        while k < more.len()
            invariant
                added == more.deep_view(),
                k <= more@.len(),
                lines == start + added.take(k as int),
                out@ == "Errors found in the configuration file:\n"@ + lines.flatten(),
            decreases more@.len() - k,
        {
            out.append(more[k].as_str());
            proof {
                lines.lemma_flatten_push(added[k as int]);
                assert(start + added.take(k + 1) =~= (start + added.take(k as int)).push(
                    added[k as int],
                ));
                lines = lines.push(added[k as int]);
            }
            k += 1;
        }
        assert(added.take(added.len() as int) =~= added);
        i += 1;
    }
    assert(report.take(report.len() as int) =~= report);
    out
}

} // verus!
