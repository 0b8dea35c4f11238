//! The rules on single fields and on single records.
//!
//! Each rule is a spec function from the view of what it judges to the
//! violation it reports, if any, and an executable function that computes it.

use vstd::prelude::*;
use crate::config::errors::{ValidationError, ValidationErrorView};
use crate::config::schema::{
    Filetype, FiletypeView, Handler, OneOrList, Override, OverrideView, lemma_items_view,
};
use crate::text::{begins_with_char, followed_by, contains_char, join, join_strings, starts_with,
    starts_with_char};

verus! {

/// A violation with a code and a message.
pub open spec fn rule_error(code: Seq<char>, message: Seq<char>) -> ValidationErrorView {
    ValidationErrorView { code, message: Some(message) }
}

/// The violation of a text that must not be empty.
pub open spec fn length_error(message: Seq<char>) -> ValidationErrorView {
    rule_error("length"@, message)
}

/// What a rule's result says: the violation, or none.
pub open spec fn outcome(result: Result<(), ValidationError>) -> Option<ValidationErrorView> {
    match result {
        Ok(_) => None,
        Err(e) => Some(e@),
    }
}

/// Whether one of the items is empty.
pub open spec fn some_empty<T>(items: Seq<Seq<T>>) -> bool {
    exists|i: int| 0 <= i < items.len() && (#[trigger] items[i]).len() == 0
}

/// Whether the text is an address that begins with `http://` or `https://`.
pub open spec fn is_web_url(url: Seq<char>) -> bool {
    "http://"@.is_prefix_of(url) || "https://"@.is_prefix_of(url)
}

/// Whether one of the addresses is no web address.
pub open spec fn some_foreign_url(urls: Seq<Seq<char>>) -> bool {
    exists|i: int| 0 <= i < urls.len() && !is_web_url(#[trigger] urls[i])
}

/// The rule on `argv`: the command name holds no substitution marker.
pub open spec fn argv_error(argv: Seq<Seq<char>>) -> Option<ValidationErrorView> {
    if argv.len() > 0 && argv[0].contains('{') {
        Some(
            rule_error(
                "argv0_subst"@,
                "argv[0] cannot contain substitution tokens: "@ + argv[0],
            ),
        )
    } else {
        None
    }
}

/// The rule on `extension`: at least one entry, none empty, none with a leading period.
pub open spec fn exts_error(exts: Seq<Seq<char>>) -> Option<ValidationErrorView> {
    if exts.len() == 0 || some_empty(exts) {
        Some(rule_error("empty_ext"@, "Extensions may not be empty strings"@))
    } else {
        let dotted = exts.filter(|e: Seq<char>| begins_with_char(e, '.'));
        if dotted.len() > 0 {
            Some(
                rule_error(
                    "no_period_ext"@,
                    "Extensions must not start with a period: "@ + join(dotted, ", "@),
                ),
            )
        } else {
            None
        }
    }
}

/// The rule on `handler`: at least one id, none empty.
pub open spec fn handlers_error(handlers: Seq<Seq<char>>) -> Option<ValidationErrorView> {
    if handlers.len() == 0 || some_empty(handlers) {
        Some(rule_error("empty_handler"@, "Handler names must not be empty sequences"@))
    } else {
        None
    }
}

/// The rule on `header`: at least one pattern, none empty.
pub open spec fn headers_error(headers: Seq<Seq<u8>>) -> Option<ValidationErrorView> {
    if headers.len() == 0 || some_empty(headers) {
        Some(rule_error("empty_header"@, "Header patterns must not be empty sequences"@))
    } else {
        None
    }
}

/// The rule on `sources`: at least one address, none empty, all of them web addresses.
pub open spec fn sources_error(sources: Seq<Seq<char>>) -> Option<ValidationErrorView> {
    if sources.len() == 0 || some_empty(sources) {
        Some(
            rule_error(
                "empty_handler"@,
                "Source list must be absent or contain non-empty strings"@,
            ),
        )
    } else if some_foreign_url(sources) {
        Some(rule_error("invalid_url"@, "Only HTTP and HTTPS URLs are supported as sources"@))
    } else {
        None
    }
}

/// The rule on a whole filetype: it can be detected, and something supplies its handlers.
pub open spec fn filetype_rule_error(ft: FiletypeView) -> Option<ValidationErrorView> {
    if ft.extension is None && ft.header is None {
        Some(
            rule_error(
                "no_autodetect"@,
                "Neither extension nor header set for filetype: "@ + ft.description,
            ),
        )
    } else if ft.handler is None && ft.container is None {
        Some(
            rule_error(
                "no_handler"@,
                "Neither handler nor container set for filetype: "@ + ft.description,
            ),
        )
    } else {
        None
    }
}

/// Whether an override does anything: it ignores, or it names at least one handler.
pub open spec fn override_has_effect(ov: OverrideView) -> bool {
    ov.ignore || (ov.handler is Some && ov.handler->0.len() > 0)
}

/// The rule on a whole override: it has an effect.
pub open spec fn override_rule_error(ov: OverrideView) -> Option<ValidationErrorView> {
    if override_has_effect(ov) {
        None
    } else {
        Some(rule_error("noop_override"@, "Override has no effect: "@ + ov.path))
    }
}

/// A violation with the given code and message.
pub fn new_error(code: &str, message: String) -> (e: ValidationError)
    ensures
        e@ == rule_error(code@, message@),
{
    ValidationError { code: String::from_str(code), message: Some(message) }
}

/// Whether one of the strings is empty.
pub fn any_empty_string(items: &OneOrList<String>) -> (found: bool)
    ensures
        found == some_empty(items@),
{
    proof {
        lemma_items_view(*items);
    }
    let n = items.len();
    let mut i: usize = 0;
    while i < n
        invariant
            n == items.items().len(),
            items@.len() == n,
            i <= n,
            forall|j: int| 0 <= j < n ==> items@[j] == (#[trigger] items.items()[j])@,
            forall|j: int| 0 <= j < i ==> (#[trigger] items@[j]).len() != 0,
        decreases n - i,
    {
        if items.get(i).as_str().is_empty() {
            assert(items@[i as int].len() == 0);
            return true;
        }
        i += 1;
    }
    false
}

/// Whether one of the byte patterns is empty.
pub fn any_empty_pattern(items: &OneOrList<Vec<u8>>) -> (found: bool)
    ensures
        found == some_empty(items@),
{
    proof {
        lemma_items_view(*items);
    }
    let n = items.len();
    let mut i: usize = 0;
    while i < n
        invariant
            n == items.items().len(),
            items@.len() == n,
            i <= n,
            forall|j: int| 0 <= j < n ==> items@[j] == (#[trigger] items.items()[j]).deep_view(),
            forall|j: int| 0 <= j < i ==> (#[trigger] items@[j]).len() != 0,
        decreases n - i,
    {
        if items.get(i).len() == 0 {
            assert(items@[i as int].len() == 0);
            return true;
        }
        i += 1;
    }
    false
}

/// Checks that the command name of an external handler holds no `{`.
pub fn validate_argv(argv: &Vec<String>) -> (result: Result<(), ValidationError>)
    ensures
        outcome(result) == argv_error(argv.deep_view()),
{
    if argv.len() > 0 {
        if contains_char(argv[0].as_str(), '{') {
            return Err(
                new_error(
                    "argv0_subst",
                    followed_by("argv[0] cannot contain substitution tokens: ", argv[0].as_str()),
                ),
            );
        }
    }
    Ok(())
}

/// Checks the extensions of a filetype.
pub fn validate_exts(input: &OneOrList<String>) -> (result: Result<(), ValidationError>)
    ensures
        outcome(result) == exts_error(input@),
{
    if input.is_empty() || any_empty_string(input) {
        proof {
            lemma_items_view(*input);
        }
        return Err(
            new_error("empty_ext", String::from_str("Extensions may not be empty strings")),
        );
    }
    proof {
        lemma_items_view(*input);
    }
    let ghost dotted_if = |e: Seq<char>| begins_with_char(e, '.');
    let n = input.len();
    let mut dotted: Vec<String> = Vec::new();
    let mut i: usize = 0;
    assert(input@.take(0) =~= Seq::<Seq<char>>::empty());
    while i < n
        invariant
            n == input.items().len(),
            input@.len() == n,
            i <= n,
            dotted_if == |e: Seq<char>| begins_with_char(e, '.'),
            forall|j: int| 0 <= j < n ==> input@[j] == (#[trigger] input.items()[j])@,
            dotted.deep_view() == input@.take(i as int).filter(dotted_if),
        decreases n - i,
    {
        let ext = input.get(i);
        let ghost before = dotted.deep_view();
        proof {
            crate::seqs::lemma_filter_step(input@, dotted_if, i as int);
        }
        if starts_with_char(ext.as_str(), '.') {
            dotted.push(ext.clone());
            assert(dotted.deep_view() =~= before.push(ext@));
        }
        i += 1;
    }
    assert(input@.take(n as int) =~= input@);
    if dotted.len() > 0 {
        return Err(
            new_error(
                "no_period_ext",
                followed_by(
                    "Extensions must not start with a period: ",
                    join_strings(&dotted, ", ").as_str(),
                ),
            ),
        );
    }
    Ok(())
}

/// Checks the handler ids of a filetype or an override.
pub fn validate_handlers(input: &OneOrList<String>) -> (result: Result<(), ValidationError>)
    ensures
        outcome(result) == handlers_error(input@),
{
    if input.is_empty() || any_empty_string(input) {
        proof {
            lemma_items_view(*input);
        }
        return Err(
            new_error(
                "empty_handler",
                String::from_str("Handler names must not be empty sequences"),
            ),
        );
    }
    proof {
        lemma_items_view(*input);
    }
    Ok(())
}

/// Checks the header patterns of a filetype.
pub fn validate_headers(input: &OneOrList<Vec<u8>>) -> (result: Result<(), ValidationError>)
    ensures
        outcome(result) == headers_error(input@),
{
    if input.is_empty() || any_empty_pattern(input) {
        proof {
            lemma_items_view(*input);
        }
        return Err(
            new_error(
                "empty_header",
                String::from_str("Header patterns must not be empty sequences"),
            ),
        );
    }
    proof {
        lemma_items_view(*input);
    }
    Ok(())
}

/// Checks the addresses from which an external handler can be installed.
pub fn validate_sources(input: &OneOrList<String>) -> (result: Result<(), ValidationError>)
    ensures
        outcome(result) == sources_error(input@),
{
    proof {
        lemma_items_view(*input);
    }
    if input.is_empty() || any_empty_string(input) {
        return Err(
            new_error(
                "empty_handler",
                String::from_str("Source list must be absent or contain non-empty strings"),
            ),
        );
    }
    let n = input.len();
    let mut i: usize = 0;
    while i < n
        invariant
            n == input.items().len(),
            input@.len() == n,
            i <= n,
            n > 0,
            !some_empty(input@),
            forall|j: int| 0 <= j < n ==> input@[j] == (#[trigger] input.items()[j])@,
            forall|j: int| 0 <= j < i ==> is_web_url(#[trigger] input@[j]),
        decreases n - i,
    {
        let url = input.get(i);
        if !(starts_with(url.as_str(), "http://") || starts_with(url.as_str(), "https://")) {
            assert(!is_web_url(input@[i as int]));
            return Err(
                new_error(
                    "invalid_url",
                    String::from_str("Only HTTP and HTTPS URLs are supported as sources"),
                ),
            );
        }
        i += 1;
    }
    Ok(())
}

/// Checks that a filetype can be detected and that something supplies its handlers.
pub fn validate_filetype(input: &Filetype) -> (result: Result<(), ValidationError>)
    ensures
        outcome(result) == filetype_rule_error(input@),
{
    if input.extension.is_none() && input.header.is_none() {
        return Err(
            new_error(
                "no_autodetect",
                followed_by(
                    "Neither extension nor header set for filetype: ",
                    input.description.as_str(),
                ),
            ),
        );
    }
    if input.handler.is_none() && input.container.is_none() {
        return Err(
            new_error(
                "no_handler",
                followed_by(
                    "Neither handler nor container set for filetype: ",
                    input.description.as_str(),
                ),
            ),
        );
    }
    Ok(())
}

/// Checks that an override has an effect.
pub fn validate_override(input: &Override) -> (result: Result<(), ValidationError>)
    ensures
        outcome(result) == override_rule_error(input@),
{
    if input.ignore {
        return Ok(());
    }
    match &input.handler {
        Some(handler) => {
            proof {
                lemma_items_view(*handler);
            }
            if !handler.is_empty() {
                return Ok(());
            }
        },
        None => {},
    }
    Err(new_error("noop_override", followed_by("Override has no effect: ", input.path.as_str())))
}

} // verus!
