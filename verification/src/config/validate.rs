//! Validation of records and of a whole configuration.
//!
//! The rules on fields all run and all their violations are kept. The rule on
//! a whole record runs only when its fields are in order. The rule on the
//! document runs in every case.

use vstd::prelude::*;
use crate::config::containers::{container_errors, validate_root};
use crate::config::errors::{
    FieldErrors, FieldErrorsView, RecordErrors, RecordErrorsView, RecordKey, RecordKeyView,
    ValidationError, ValidationErrorView, ValidationErrors, ValidationErrorsKind,
    ValidationErrorsKindView,
};
use crate::config::rules::{
    argv_error, exts_error, filetype_rule_error, handlers_error, headers_error, length_error,
    new_error, outcome, override_rule_error, sources_error, validate_argv, validate_exts,
    validate_filetype, validate_handlers, validate_headers, validate_override, validate_sources,
};
use crate::config::schema::{
    Filetype, FiletypeView, Handler, HandlerView, Override, OverrideView, Root, RootView,
};
use crate::seqs::collect;

verus! {

/// The report of one field: nothing, or the field with its violation.
pub open spec fn field_entry(field: Seq<char>, error: Option<ValidationErrorView>) -> Seq<
    FieldErrorsView,
> {
    match error {
        Some(e) => seq![FieldErrorsView { field, errors: seq![e] }],
        None => Seq::empty(),
    }
}

/// The rule on a text that must not be empty.
pub open spec fn text_error(text: Seq<char>, message: Seq<char>) -> Option<ValidationErrorView> {
    if text.len() == 0 {
        Some(length_error(message))
    } else {
        None
    }
}

/// The rule on a text that may be absent, but not empty.
pub open spec fn optional_text_error(text: Option<Seq<char>>, message: Seq<char>) -> Option<
    ValidationErrorView,
> {
    match text {
        Some(t) => text_error(t, message),
        None => None,
    }
}

/// The report of a record: that of its fields or, when they are in order,
/// that of the rule on the whole record, under the name `__all__`.
pub open spec fn record_report(
    fields: Seq<FieldErrorsView>,
    rule: Option<ValidationErrorView>,
) -> Seq<FieldErrorsView> {
    if fields.len() > 0 {
        fields
    } else {
        field_entry("__all__"@, rule)
    }
}

/// The violations in the fields of a filetype, in the order of the fields.
pub open spec fn filetype_field_errors(ft: FiletypeView) -> Seq<FieldErrorsView> {
    field_entry(
        "container"@,
        optional_text_error(ft.container, "'container' must not be an empty string if present"@),
    ) + field_entry(
        "description"@,
        text_error(ft.description, "'description' must not be an empty string"@),
    ) + field_entry(
        "extension"@,
        match ft.extension {
            Some(exts) => exts_error(exts),
            None => None,
        },
    ) + field_entry(
        "handler"@,
        match ft.handler {
            Some(handlers) => handlers_error(handlers),
            None => None,
        },
    ) + field_entry(
        "header"@,
        match ft.header {
            Some(headers) => headers_error(headers),
            None => None,
        },
    )
}

/// Everything that is wrong with a filetype.
pub open spec fn filetype_errors(ft: FiletypeView) -> Seq<FieldErrorsView> {
    record_report(filetype_field_errors(ft), filetype_rule_error(ft))
}

/// The violations in the fields of an override, in the order of the fields.
pub open spec fn override_field_errors(ov: OverrideView) -> Seq<FieldErrorsView> {
    field_entry("path"@, text_error(ov.path, "Globbing pattern must not be empty"@)) + field_entry(
        "handler"@,
        match ov.handler {
            Some(handlers) => handlers_error(handlers),
            None => None,
        },
    ) + field_entry(
        "message"@,
        optional_text_error(ov.message, "If provided, 'message' must not be empty"@),
    )
}

/// Everything that is wrong with an override.
pub open spec fn override_errors(ov: OverrideView) -> Seq<FieldErrorsView> {
    record_report(override_field_errors(ov), override_rule_error(ov))
}

/// The rule on the command line of a handler: not empty, and no marker in the command name.
pub open spec fn command_error(argv: Seq<Seq<char>>) -> Option<ValidationErrorView> {
    if argv.len() == 0 {
        Some(length_error("'argv' must not be empty"@))
    } else {
        argv_error(argv)
    }
}

/// Everything that is wrong with an external handler.
pub open spec fn handler_errors(h: HandlerView) -> Seq<FieldErrorsView> {
    field_entry("argv"@, command_error(h.argv)) + field_entry(
        "description"@,
        optional_text_error(h.description, "If provided, 'description' must not be empty"@),
    ) + field_entry(
        "fail_if_stderr"@,
        optional_text_error(h.fail_if_stderr, "If provided, 'fail_if_stderr' must not be empty"@),
    ) + field_entry(
        "sources"@,
        match h.sources {
            Some(sources) => sources_error(sources),
            None => None,
        },
    )
}

/// The report of one record: nothing, or the record's key with its violations.
pub open spec fn record_entry(key: RecordKeyView, fields: Seq<FieldErrorsView>) -> Option<
    RecordErrorsView,
> {
    if fields.len() > 0 {
        Some(RecordErrorsView { key, fields })
    } else {
        None
    }
}

/// The reports of the filetypes that break a rule, in the order of the filetypes.
pub open spec fn filetype_records(fts: Seq<(Seq<char>, FiletypeView)>) -> Seq<RecordErrorsView> {
    collect(
        fts.len() as int,
        |i: int| record_entry(RecordKeyView::Id(fts[i].0), filetype_errors(fts[i].1)),
    )
}

/// The reports of the overrides that break a rule, in the order of the overrides.
pub open spec fn override_records(ovs: Seq<OverrideView>) -> Seq<RecordErrorsView> {
    collect(
        ovs.len() as int,
        |i: int| record_entry(RecordKeyView::Index(i as usize), override_errors(ovs[i])),
    )
}

/// The reports of the handlers that break a rule, in the order of the handlers.
pub open spec fn handler_records(hs: Seq<(Seq<char>, HandlerView)>) -> Seq<RecordErrorsView> {
    collect(
        hs.len() as int,
        |i: int| record_entry(RecordKeyView::Id(hs[i].0), handler_errors(hs[i].1)),
    )
}

/// The report of one section: nothing, or the section's name with its records.
pub open spec fn records_entry(name: Seq<char>, records: Seq<RecordErrorsView>) -> Seq<
    (Seq<char>, ValidationErrorsKindView),
> {
    if records.len() > 0 {
        seq![(name, ValidationErrorsKindView::Records(records))]
    } else {
        Seq::empty()
    }
}

/// The report on the document as a whole: nothing, or the name `__all__` with the violations.
pub open spec fn document_entry(errors: Seq<ValidationErrorView>) -> Seq<
    (Seq<char>, ValidationErrorsKindView),
> {
    if errors.len() > 0 {
        seq![("__all__"@, ValidationErrorsKindView::Field(errors))]
    } else {
        Seq::empty()
    }
}

/// Everything that is wrong with a configuration: the sections `filetype`,
/// `override`, `handler` and `__all__`, in this order, each only if it holds a
/// violation.
pub open spec fn root_errors(root: RootView) -> Seq<(Seq<char>, ValidationErrorsKindView)> {
    records_entry("filetype"@, filetype_records(root.filetypes)) + records_entry(
        "override"@,
        override_records(root.overrides),
    ) + records_entry("handler"@, handler_records(root.handlers)) + document_entry(
        container_errors(root.filetypes),
    )
}

/// Whether a configuration breaks no rule.
pub open spec fn valid(root: RootView) -> bool {
    root_errors(root).len() == 0
}

/// Adds the report of one field to `fields`.
fn note(fields: &mut Vec<FieldErrors>, field: &str, result: Result<(), ValidationError>)
    ensures
        final(fields).deep_view() == old(fields).deep_view() + field_entry(field@, outcome(result)),
{
    let ghost before = fields.deep_view();
    match result {
        Ok(_) => {
            assert(fields.deep_view() =~= before + field_entry(field@, outcome(result)));
        },
        Err(e) => {
            let mut errors: Vec<ValidationError> = Vec::new();
            errors.push(e);
            assert(errors.deep_view() =~= seq![e@]);
            let entry = FieldErrors { field: String::from_str(field), errors };
            fields.push(entry);
            assert(fields.deep_view() =~= before + field_entry(field@, outcome(result)));
        },
    }
}

/// Checks that a text is not empty.
fn check_text(text: &str, message: &str) -> (result: Result<(), ValidationError>)
    ensures
        outcome(result) == text_error(text@, message@),
{
    if text.is_empty() {
        Err(new_error("length", String::from_str(message)))
    } else {
        Ok(())
    }
}

/// Checks that a text, if there is one, is not empty.
fn check_optional_text(text: &Option<String>, message: &str) -> (result: Result<
    (),
    ValidationError,
>)
    ensures
        outcome(result) == optional_text_error(text.deep_view(), message@),
{
    match text {
        Some(t) => check_text(t.as_str(), message),
        None => Ok(()),
    }
}

/// Ends the report of a record.
fn close_record(fields: Vec<FieldErrors>, rule: Result<(), ValidationError>) -> (result: Result<
    (),
    Vec<FieldErrors>,
>)
    ensures
        match result {
            Ok(_) => record_report(fields.deep_view(), outcome(rule)).len() == 0,
            Err(report) => report.deep_view() == record_report(fields.deep_view(), outcome(rule))
                && report@.len() > 0,
        },
{
    if fields.len() > 0 {
        Err(fields)
    } else {
        let mut report: Vec<FieldErrors> = Vec::new();
        note(&mut report, "__all__", rule);
        assert(report.deep_view() =~= field_entry("__all__"@, outcome(rule)));
        if report.len() > 0 {
            Err(report)
        } else {
            Ok(())
        }
    }
}

impl Filetype {
    /// Checks the rules on the fields and, when they hold, the rule on the whole filetype.
    pub fn validate(&self) -> (result: Result<(), Vec<FieldErrors>>)
        ensures
            match result {
                Ok(_) => filetype_errors(self@).len() == 0,
                Err(report) => report.deep_view() == filetype_errors(self@) && report@.len() > 0,
            },
    {
        let mut fields: Vec<FieldErrors> = Vec::new();
        assert(fields.deep_view() =~= Seq::<FieldErrorsView>::empty());
        note(
            &mut fields,
            "container",
            check_optional_text(
                &self.container,
                "'container' must not be an empty string if present",
            ),
        );
        note(
            &mut fields,
            "description",
            check_text(self.description.as_str(), "'description' must not be an empty string"),
        );
        note(
            &mut fields,
            "extension",
            match &self.extension {
                Some(exts) => validate_exts(exts),
                None => Ok(()),
            },
        );
        note(
            &mut fields,
            "handler",
            match &self.handler {
                Some(handlers) => validate_handlers(handlers),
                None => Ok(()),
            },
        );
        note(
            &mut fields,
            "header",
            match &self.header {
                Some(headers) => validate_headers(headers),
                None => Ok(()),
            },
        );
        assert(fields.deep_view() =~= filetype_field_errors(self@));
        if fields.len() > 0 {
            Err(fields)
        } else {
            close_record(fields, validate_filetype(self))
        }
    }
}

impl Override {
    /// Checks the rules on the fields and, when they hold, the rule on the whole override.
    pub fn validate(&self) -> (result: Result<(), Vec<FieldErrors>>)
        ensures
            match result {
                Ok(_) => override_errors(self@).len() == 0,
                Err(report) => report.deep_view() == override_errors(self@) && report@.len() > 0,
            },
    {
        let mut fields: Vec<FieldErrors> = Vec::new();
        assert(fields.deep_view() =~= Seq::<FieldErrorsView>::empty());
        note(
            &mut fields,
            "path",
            check_text(self.path.as_str(), "Globbing pattern must not be empty"),
        );
        note(
            &mut fields,
            "handler",
            match &self.handler {
                Some(handlers) => validate_handlers(handlers),
                None => Ok(()),
            },
        );
        note(
            &mut fields,
            "message",
            check_optional_text(&self.message, "If provided, 'message' must not be empty"),
        );
        assert(fields.deep_view() =~= override_field_errors(self@));
        if fields.len() > 0 {
            Err(fields)
        } else {
            close_record(fields, validate_override(self))
        }
    }
}

impl Handler {
    /// Checks the rules on the fields of an external handler.
    pub fn validate(&self) -> (result: Result<(), Vec<FieldErrors>>)
        ensures
            match result {
                Ok(_) => handler_errors(self@).len() == 0,
                Err(report) => report.deep_view() == handler_errors(self@) && report@.len() > 0,
            },
    {
        let mut fields: Vec<FieldErrors> = Vec::new();
        assert(fields.deep_view() =~= Seq::<FieldErrorsView>::empty());
        note(
            &mut fields,
            "argv",
            if self.argv.len() == 0 {
                Err(new_error("length", String::from_str("'argv' must not be empty")))
            } else {
                validate_argv(&self.argv)
            },
        );
        note(
            &mut fields,
            "description",
            check_optional_text(
                &self.description,
                "If provided, 'description' must not be empty",
            ),
        );
        note(
            &mut fields,
            "fail_if_stderr",
            check_optional_text(
                &self.fail_if_stderr,
                "If provided, 'fail_if_stderr' must not be empty",
            ),
        );
        note(
            &mut fields,
            "sources",
            match &self.sources {
                Some(sources) => validate_sources(sources),
                None => Ok(()),
            },
        );
        assert(fields.deep_view() =~= handler_errors(self@));
        if fields.len() > 0 {
            Err(fields)
        } else {
            Ok(())
        }
    }
}

/// Adds the report of one record to `records`.
fn note_record(records: &mut Vec<RecordErrors>, key: RecordKey, result: Result<(), Vec<FieldErrors>>)
    ensures
        final(records).deep_view() == match result {
            Ok(_) => old(records).deep_view(),
            Err(fields) => old(records).deep_view().push(
                RecordErrorsView { key: key@, fields: fields.deep_view() },
            ),
        },
{
    let ghost before = records.deep_view();
    match result {
        Ok(_) => {},
        Err(fields) => {
            records.push(RecordErrors { key, fields });
            assert(records.deep_view() =~= before.push(
                RecordErrorsView { key: key@, fields: fields.deep_view() },
            ));
        },
    }
}

/// Adds the report of one section to `sections`.
fn note_section(
    sections: &mut Vec<(String, ValidationErrorsKind)>,
    name: &str,
    records: Vec<RecordErrors>,
)
    ensures
        final(sections).deep_view() == old(sections).deep_view() + records_entry(
            name@,
            records.deep_view(),
        ),
{
    let ghost before = sections.deep_view();
    if records.len() > 0 {
        sections.push((String::from_str(name), ValidationErrorsKind::Records(records)));
    }
    assert(sections.deep_view() =~= before + records_entry(name@, records.deep_view()));
}

impl Root {
    /// Checks every rule and reports all the violations together.
    pub fn validate(&self) -> (result: Result<(), ValidationErrors>)
        ensures
            match result {
                Ok(_) => valid(self@),
                Err(report) => report@ == root_errors(self@) && !valid(self@),
            },
    {
        let ghost root = self@;
        let mut sections: Vec<(String, ValidationErrorsKind)> = Vec::new();
        assert(sections.deep_view() =~= Seq::<(Seq<char>, ValidationErrorsKindView)>::empty());

        let mut records: Vec<RecordErrors> = Vec::new();
        let ghost pick_filetype = |i: int|
            record_entry(RecordKeyView::Id(root.filetypes[i].0), filetype_errors(root.filetypes[i].1));
        assert(records.deep_view() =~= collect(0, pick_filetype));
        let mut i: usize = 0;
        while i < self.filetypes.len()
            invariant
                root == self@,
                root.filetypes == self.filetypes.deep_view(),
                pick_filetype == |i: int|
                    record_entry(
                        RecordKeyView::Id(root.filetypes[i].0),
                        filetype_errors(root.filetypes[i].1),
                    ),
                i <= self.filetypes@.len(),
                records.deep_view() == collect(i as int, pick_filetype),
            decreases self.filetypes@.len() - i,
        {
            let key = RecordKey::Id(self.filetypes[i].0.clone());
            note_record(&mut records, key, self.filetypes[i].1.validate());
            i += 1;
        }
        note_section(&mut sections, "filetype", records);

        let mut records: Vec<RecordErrors> = Vec::new();
        let ghost pick_override = |i: int|
            record_entry(RecordKeyView::Index(i as usize), override_errors(root.overrides[i]));
        assert(records.deep_view() =~= collect(0, pick_override));
        let mut i: usize = 0;
        while i < self.overrides.len()
            invariant
                root == self@,
                root.overrides == self.overrides.deep_view(),
                pick_override == |i: int|
                    record_entry(RecordKeyView::Index(i as usize), override_errors(root.overrides[i])),
                i <= self.overrides@.len(),
                records.deep_view() == collect(i as int, pick_override),
            decreases self.overrides@.len() - i,
        {
            note_record(&mut records, RecordKey::Index(i), self.overrides[i].validate());
            i += 1;
        }
        note_section(&mut sections, "override", records);

        let mut records: Vec<RecordErrors> = Vec::new();
        let ghost pick_handler = |i: int|
            record_entry(RecordKeyView::Id(root.handlers[i].0), handler_errors(root.handlers[i].1));
        assert(records.deep_view() =~= collect(0, pick_handler));
        let mut i: usize = 0;
        while i < self.handlers.len()
            invariant
                root == self@,
                root.handlers == self.handlers.deep_view(),
                pick_handler == |i: int|
                    record_entry(
                        RecordKeyView::Id(root.handlers[i].0),
                        handler_errors(root.handlers[i].1),
                    ),
                i <= self.handlers@.len(),
                records.deep_view() == collect(i as int, pick_handler),
            decreases self.handlers@.len() - i,
        {
            let key = RecordKey::Id(self.handlers[i].0.clone());
            note_record(&mut records, key, self.handlers[i].1.validate());
            i += 1;
        }
        note_section(&mut sections, "handler", records);

        let ghost before = sections.deep_view();
        match validate_root(self) {
            Ok(_) => {},
            Err(errors) => {
                sections.push((String::from_str("__all__"), ValidationErrorsKind::Field(errors)));
            },
        }
        assert(sections.deep_view() =~= before + document_entry(container_errors(root.filetypes)));
        assert(sections.deep_view() == root_errors(root));
        if sections.len() > 0 {
            Err(ValidationErrors { sections })
        } else {
            Ok(())
        }
    }
}

} // verus!
