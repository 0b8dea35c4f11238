//! From a TOML document to a configuration.
//!
//! The document may hold three sections, each of them optional: the table
//! `filetype` and the table `handler`, whose keys are ids, and the list
//! `override`. Keys that the schema does not know are passed over. A field of
//! the wrong shape, a missing required field and an id that occurs twice are
//! reported, the first one found in the order filetypes, overrides, handlers.

use vstd::prelude::*;
use crate::config::errors::{RecordKey, RecordKeyView};
use crate::config::schema::{
    Filetype, FiletypeView, Handler, HandlerView, OneOrList, Override, OverrideView, Root,
    RootView,
};
use crate::document::Node;
use crate::text::str_eq;

verus! {

/// What is wrong with a part of the document.
#[derive(Debug, Clone, Copy, PartialEq, Eq, Structural)]
pub enum Problem {
    /// A required field is not there
    Missing,
    /// The part has another shape than the schema gives it, or a number is out of range
    Mismatch,
    /// An id names two records
    Duplicate,
}

/// A document that does not fit the schema: where, and why.
#[derive(Debug, PartialEq, Eq)]
pub struct SchemaError {
    /// The section's name; empty where the document itself is meant
    pub section: String,
    /// The record, unless the section itself is meant
    pub record: Option<RecordKey>,
    /// The field, unless the record itself is meant
    pub field: Option<String>,
    pub problem: Problem,
}

/// The mathematical value of a [`SchemaError`].
pub struct SchemaErrorView {
    pub section: Seq<char>,
    pub record: Option<RecordKeyView>,
    pub field: Option<Seq<char>>,
    pub problem: Problem,
}

impl DeepView for SchemaError {
    type V = SchemaErrorView;

    open spec fn deep_view(&self) -> SchemaErrorView {
        SchemaErrorView {
            section: self.section@,
            record: self.record.deep_view(),
            field: self.field.deep_view(),
            problem: self.problem,
        }
    }
}

impl View for SchemaError {
    type V = SchemaErrorView;

    open spec fn view(&self) -> SchemaErrorView {
        self.deep_view()
    }
}

/// The keys of a table, in order.
pub open spec fn keys_of(table: Seq<(String, Node)>) -> Seq<Seq<char>> {
    table.map_values(|e: (String, Node)| e.0@)
}

/// The value that a table gives to a key: that of the first entry with the key.
pub open spec fn entry(table: Seq<(String, Node)>, key: Seq<char>) -> Option<Node> {
    match keys_of(table).index_of_first(key) {
        Some(i) => Some(table[i].1),
        None => None,
    }
}

/// A node read as a text.
pub open spec fn as_text(node: Node) -> Option<Seq<char>> {
    match node {
        Node::String(s) => Some(s@),
        _ => None,
    }
}

/// A node read as a flag.
pub open spec fn as_flag(node: Node) -> Option<bool> {
    match node {
        Node::Boolean(b) => Some(b),
        _ => None,
    }
}

/// A node read as a count of bytes.
pub open spec fn as_count(node: Node) -> Option<usize> {
    match node {
        Node::Integer(i) => if 0 <= i <= usize::MAX {
            Some(i as usize)
        } else {
            None
        },
        _ => None,
    }
}

/// A node read as a byte.
pub open spec fn as_byte(node: Node) -> Option<u8> {
    match node {
        Node::Integer(i) => if 0 <= i <= 255 {
            Some(i as u8)
        } else {
            None
        },
        _ => None,
    }
}

/// A node read as a list of texts.
pub open spec fn as_texts(node: Node) -> Option<Seq<Seq<char>>> {
    match node {
        Node::Array(items) => if forall|i: int|
            0 <= i < items@.len() ==> as_text(#[trigger] items@[i]) is Some {
            Some(Seq::new(items@.len(), |i: int| as_text(items@[i])->0))
        } else {
            None
        },
        _ => None,
    }
}

/// A node read as a byte pattern.
pub open spec fn as_bytes(node: Node) -> Option<Seq<u8>> {
    match node {
        Node::Array(items) => if forall|i: int|
            0 <= i < items@.len() ==> as_byte(#[trigger] items@[i]) is Some {
            Some(Seq::new(items@.len(), |i: int| as_byte(items@[i])->0))
        } else {
            None
        },
        _ => None,
    }
}

/// A node read as one text or a list of texts.
pub open spec fn as_text_or_list(node: Node) -> Option<Seq<Seq<char>>> {
    match node {
        Node::String(s) => Some(seq![s@]),
        _ => as_texts(node),
    }
}

/// A node read as one byte pattern or a list of byte patterns. A list of
/// bytes is one pattern, the empty list too.
pub open spec fn as_patterns(node: Node) -> Option<Seq<Seq<u8>>> {
    match as_bytes(node) {
        Some(bytes) => Some(seq![bytes]),
        None => match node {
            Node::Array(items) => if forall|i: int|
                0 <= i < items@.len() ==> as_bytes(#[trigger] items@[i]) is Some {
                Some(Seq::new(items@.len(), |i: int| as_bytes(items@[i])->0))
            } else {
                None
            },
            _ => None,
        },
    }
}

/// A field that may be absent: what was read, where `read` is `None` for an
/// absent field and holds the reading of a present one.
pub open spec fn optional<T>(read: Option<Option<T>>) -> Result<Option<T>, Problem> {
    match read {
        None => Ok(None),
        Some(None) => Err(Problem::Mismatch),
        Some(Some(x)) => Ok(Some(x)),
    }
}

/// A field that must be there.
pub open spec fn required<T>(read: Option<Option<T>>) -> Result<T, Problem> {
    match read {
        None => Err(Problem::Missing),
        Some(None) => Err(Problem::Mismatch),
        Some(Some(x)) => Ok(x),
    }
}

/// A field that has a value when it is absent.
pub open spec fn defaulted<T>(read: Option<Option<T>>, default: T) -> Result<T, Problem> {
    match read {
        None => Ok(default),
        Some(None) => Err(Problem::Mismatch),
        Some(Some(x)) => Ok(x),
    }
}

pub open spec fn text_at(table: Seq<(String, Node)>, key: Seq<char>) -> Option<Option<Seq<char>>> {
    match entry(table, key) {
        None => None,
        Some(node) => Some(as_text(node)),
    }
}

pub open spec fn list_at(table: Seq<(String, Node)>, key: Seq<char>) -> Option<
    Option<Seq<Seq<char>>>,
> {
    match entry(table, key) {
        None => None,
        Some(node) => Some(as_text_or_list(node)),
    }
}

pub open spec fn texts_at(table: Seq<(String, Node)>, key: Seq<char>) -> Option<
    Option<Seq<Seq<char>>>,
> {
    match entry(table, key) {
        None => None,
        Some(node) => Some(as_texts(node)),
    }
}

pub open spec fn patterns_at(table: Seq<(String, Node)>, key: Seq<char>) -> Option<
    Option<Seq<Seq<u8>>>,
> {
    match entry(table, key) {
        None => None,
        Some(node) => Some(as_patterns(node)),
    }
}

pub open spec fn count_at(table: Seq<(String, Node)>, key: Seq<char>) -> Option<Option<usize>> {
    match entry(table, key) {
        None => None,
        Some(node) => Some(as_count(node)),
    }
}

pub open spec fn flag_at(table: Seq<(String, Node)>, key: Seq<char>) -> Option<Option<bool>> {
    match entry(table, key) {
        None => None,
        Some(node) => Some(as_flag(node)),
    }
}

/// What is wrong inside a record: the field, unless the record itself is meant, and why.
pub type Flaw = (Option<Seq<char>>, Problem);

/// The filetype that a node stands for. The fields are read in the order
/// `container`, `description`, `extension`, `handler`, `header`,
/// `header_offset`, `multipage`, and the first that cannot be read is reported.
pub open spec fn decoded_filetype(node: Node) -> Result<FiletypeView, Flaw> {
    match node {
        Node::Table(entries) => {
            let table = entries@;
            let container = optional(text_at(table, "container"@));
            let description = required(text_at(table, "description"@));
            let extension = optional(list_at(table, "extension"@));
            let handler = optional(list_at(table, "handler"@));
            let header = optional(patterns_at(table, "header"@));
            let header_offset = defaulted(count_at(table, "header_offset"@), 0usize);
            let multipage = defaulted(flag_at(table, "multipage"@), false);
            if container is Err {
                Err((Some("container"@), container->Err_0))
            } else if description is Err {
                Err((Some("description"@), description->Err_0))
            } else if extension is Err {
                Err((Some("extension"@), extension->Err_0))
            } else if handler is Err {
                Err((Some("handler"@), handler->Err_0))
            } else if header is Err {
                Err((Some("header"@), header->Err_0))
            } else if header_offset is Err {
                Err((Some("header_offset"@), header_offset->Err_0))
            } else if multipage is Err {
                Err((Some("multipage"@), multipage->Err_0))
            } else {
                Ok(
                    FiletypeView {
                        container: container->Ok_0,
                        description: description->Ok_0,
                        extension: extension->Ok_0,
                        handler: handler->Ok_0,
                        header: header->Ok_0,
                        header_offset: header_offset->Ok_0,
                        multipage: multipage->Ok_0,
                    },
                )
            }
        },
        _ => Err((None, Problem::Mismatch)),
    }
}

/// The override that a node stands for. The fields are read in the order
/// `path`, `handler`, `ignore`, `message`.
pub open spec fn decoded_override(node: Node) -> Result<OverrideView, Flaw> {
    match node {
        Node::Table(entries) => {
            let table = entries@;
            let path = required(text_at(table, "path"@));
            let handler = optional(list_at(table, "handler"@));
            let ignore = defaulted(flag_at(table, "ignore"@), false);
            let message = optional(text_at(table, "message"@));
            if path is Err {
                Err((Some("path"@), path->Err_0))
            } else if handler is Err {
                Err((Some("handler"@), handler->Err_0))
            } else if ignore is Err {
                Err((Some("ignore"@), ignore->Err_0))
            } else if message is Err {
                Err((Some("message"@), message->Err_0))
            } else {
                Ok(
                    OverrideView {
                        path: path->Ok_0,
                        handler: handler->Ok_0,
                        ignore: ignore->Ok_0,
                        message: message->Ok_0,
                    },
                )
            }
        },
        _ => Err((None, Problem::Mismatch)),
    }
}

/// The external handler that a node stands for. The fields are read in the
/// order `argv`, `description`, `fail_if_stderr`, `sources`.
pub open spec fn decoded_handler(node: Node) -> Result<HandlerView, Flaw> {
    match node {
        Node::Table(entries) => {
            let table = entries@;
            let argv = required(texts_at(table, "argv"@));
            let description = optional(text_at(table, "description"@));
            let fail_if_stderr = optional(text_at(table, "fail_if_stderr"@));
            let sources = optional(list_at(table, "sources"@));
            if argv is Err {
                Err((Some("argv"@), argv->Err_0))
            } else if description is Err {
                Err((Some("description"@), description->Err_0))
            } else if fail_if_stderr is Err {
                Err((Some("fail_if_stderr"@), fail_if_stderr->Err_0))
            } else if sources is Err {
                Err((Some("sources"@), sources->Err_0))
            } else {
                Ok(
                    HandlerView {
                        argv: argv->Ok_0,
                        description: description->Ok_0,
                        fail_if_stderr: fail_if_stderr->Ok_0,
                        sources: sources->Ok_0,
                    },
                )
            }
        },
        _ => Err((None, Problem::Mismatch)),
    }
}

/// The report of a flaw in a record.
pub open spec fn record_flaw(section: Seq<char>, key: RecordKeyView, flaw: Flaw) -> SchemaErrorView {
    SchemaErrorView { section, record: Some(key), field: flaw.0, problem: flaw.1 }
}

/// The report of a section that has the wrong shape.
pub open spec fn section_flaw(section: Seq<char>) -> SchemaErrorView {
    SchemaErrorView { section, record: None, field: None, problem: Problem::Mismatch }
}

/// The filetypes that the first `n` entries of a table stand for.
pub open spec fn decoded_filetypes(table: Seq<(String, Node)>, n: int) -> Result<
    Seq<(Seq<char>, FiletypeView)>,
    SchemaErrorView,
>
    decreases n,
{
    if n <= 0 {
        Ok(Seq::empty())
    } else {
        match decoded_filetypes(table, n - 1) {
            Err(e) => Err(e),
            Ok(done) => {
                let id = table[n - 1].0@;
                if done.map_values(|e: (Seq<char>, FiletypeView)| e.0).contains(id) {
                    Err(
                        record_flaw(
                            "filetype"@,
                            RecordKeyView::Id(id),
                            (None, Problem::Duplicate),
                        ),
                    )
                } else {
                    match decoded_filetype(table[n - 1].1) {
                        Err(flaw) => Err(record_flaw("filetype"@, RecordKeyView::Id(id), flaw)),
                        Ok(ft) => Ok(done.push((id, ft))),
                    }
                }
            },
        }
    }
}

/// The handlers that the first `n` entries of a table stand for.
pub open spec fn decoded_handlers(table: Seq<(String, Node)>, n: int) -> Result<
    Seq<(Seq<char>, HandlerView)>,
    SchemaErrorView,
>
    decreases n,
{
    if n <= 0 {
        Ok(Seq::empty())
    } else {
        match decoded_handlers(table, n - 1) {
            Err(e) => Err(e),
            Ok(done) => {
                let id = table[n - 1].0@;
                if done.map_values(|e: (Seq<char>, HandlerView)| e.0).contains(id) {
                    Err(
                        record_flaw("handler"@, RecordKeyView::Id(id), (None, Problem::Duplicate)),
                    )
                } else {
                    match decoded_handler(table[n - 1].1) {
                        Err(flaw) => Err(record_flaw("handler"@, RecordKeyView::Id(id), flaw)),
                        Ok(h) => Ok(done.push((id, h))),
                    }
                }
            },
        }
    }
}

/// The overrides that the first `n` items of a list stand for.
pub open spec fn decoded_overrides(items: Seq<Node>, n: int) -> Result<
    Seq<OverrideView>,
    SchemaErrorView,
>
    decreases n,
{
    if n <= 0 {
        Ok(Seq::empty())
    } else {
        match decoded_overrides(items, n - 1) {
            Err(e) => Err(e),
            Ok(done) => match decoded_override(items[n - 1]) {
                Err(flaw) => Err(
                    record_flaw("override"@, RecordKeyView::Index((n - 1) as usize), flaw),
                ),
                Ok(ov) => Ok(done.push(ov)),
            },
        }
    }
}

/// The section `filetype` of a document.
pub open spec fn filetype_section(table: Seq<(String, Node)>) -> Result<
    Seq<(Seq<char>, FiletypeView)>,
    SchemaErrorView,
> {
    match entry(table, "filetype"@) {
        None => Ok(Seq::empty()),
        Some(Node::Table(entries)) => decoded_filetypes(entries@, entries@.len() as int),
        Some(_) => Err(section_flaw("filetype"@)),
    }
}

/// The section `override` of a document.
pub open spec fn override_section(table: Seq<(String, Node)>) -> Result<
    Seq<OverrideView>,
    SchemaErrorView,
> {
    match entry(table, "override"@) {
        None => Ok(Seq::empty()),
        Some(Node::Array(items)) => decoded_overrides(items@, items@.len() as int),
        Some(_) => Err(section_flaw("override"@)),
    }
}

/// The section `handler` of a document.
pub open spec fn handler_section(table: Seq<(String, Node)>) -> Result<
    Seq<(Seq<char>, HandlerView)>,
    SchemaErrorView,
> {
    match entry(table, "handler"@) {
        None => Ok(Seq::empty()),
        Some(Node::Table(entries)) => decoded_handlers(entries@, entries@.len() as int),
        Some(_) => Err(section_flaw("handler"@)),
    }
}

/// The configuration that a document stands for.
pub open spec fn decoded(document: Node) -> Result<RootView, SchemaErrorView> {
    match document {
        Node::Table(entries) => {
            let filetypes = filetype_section(entries@);
            let overrides = override_section(entries@);
            let handlers = handler_section(entries@);
            if filetypes is Err {
                Err(filetypes->Err_0)
            } else if overrides is Err {
                Err(overrides->Err_0)
            } else if handlers is Err {
                Err(handlers->Err_0)
            } else {
                Ok(
                    RootView {
                        filetypes: filetypes->Ok_0,
                        overrides: overrides->Ok_0,
                        handlers: handlers->Ok_0,
                    },
                )
            }
        },
        _ => Err(section_flaw(Seq::empty())),
    }
}


/// Once a record cannot be read, the flaw found stays the result.
pub proof fn lemma_filetypes_flaw_stays(table: Seq<(String, Node)>, k: int, n: int)
    requires
        0 <= k <= n,
        decoded_filetypes(table, k) is Err,
    ensures
        decoded_filetypes(table, n) == decoded_filetypes(table, k),
    decreases n - k,
{
    if k < n {
        lemma_filetypes_flaw_stays(table, k, n - 1);
    }
}

/// Once a record cannot be read, the flaw found stays the result.
pub proof fn lemma_handlers_flaw_stays(table: Seq<(String, Node)>, k: int, n: int)
    requires
        0 <= k <= n,
        decoded_handlers(table, k) is Err,
    ensures
        decoded_handlers(table, n) == decoded_handlers(table, k),
    decreases n - k,
{
    if k < n {
        lemma_handlers_flaw_stays(table, k, n - 1);
    }
}

/// Once a record cannot be read, the flaw found stays the result.
pub proof fn lemma_overrides_flaw_stays(items: Seq<Node>, k: int, n: int)
    requires
        0 <= k <= n,
        decoded_overrides(items, k) is Err,
    ensures
        decoded_overrides(items, n) == decoded_overrides(items, k),
    decreases n - k,
{
    if k < n {
        lemma_overrides_flaw_stays(items, k, n - 1);
    }
}

/// The ids of the filetypes read from a table are distinct.
pub proof fn lemma_filetype_ids_distinct(table: Seq<(String, Node)>, n: int)
    requires
        decoded_filetypes(table, n) is Ok,
    ensures
        decoded_filetypes(table, n)->Ok_0.map_values(
            |e: (Seq<char>, FiletypeView)| e.0,
        ).no_duplicates(),
    decreases n,
{
    if n > 0 {
        lemma_filetype_ids_distinct(table, n - 1);
        let done = decoded_filetypes(table, n - 1)->Ok_0;
        let all = decoded_filetypes(table, n)->Ok_0;
        let ids = done.map_values(|e: (Seq<char>, FiletypeView)| e.0);
        assert(all.map_values(|e: (Seq<char>, FiletypeView)| e.0) =~= ids.push(table[n - 1].0@));
    }
}

/// The ids of the handlers read from a table are distinct.
pub proof fn lemma_handler_ids_distinct(table: Seq<(String, Node)>, n: int)
    requires
        decoded_handlers(table, n) is Ok,
    ensures
        decoded_handlers(table, n)->Ok_0.map_values(
            |e: (Seq<char>, HandlerView)| e.0,
        ).no_duplicates(),
    decreases n,
{
    if n > 0 {
        lemma_handler_ids_distinct(table, n - 1);
        let done = decoded_handlers(table, n - 1)->Ok_0;
        let all = decoded_handlers(table, n)->Ok_0;
        let ids = done.map_values(|e: (Seq<char>, HandlerView)| e.0);
        assert(all.map_values(|e: (Seq<char>, HandlerView)| e.0) =~= ids.push(table[n - 1].0@));
    }
}

/// In a configuration read from a document no id names two filetypes and
/// none names two handlers.
pub proof fn lemma_decoded_ids_distinct(document: Node)
    requires
        decoded(document) is Ok,
    ensures
        decoded(document)->Ok_0.ids_distinct(),
{
    match document {
        Node::Table(entries) => {
            match entry(entries@, "filetype"@) {
                Some(Node::Table(list)) => {
                    lemma_filetype_ids_distinct(list@, list@.len() as int);
                },
                _ => {},
            }
            match entry(entries@, "handler"@) {
                Some(Node::Table(list)) => {
                    lemma_handler_ids_distinct(list@, list@.len() as int);
                },
                _ => {},
            }
        },
        _ => {},
    }
}

/// The node that `table` gives to `key`.
pub fn lookup<'a>(table: &'a Vec<(String, Node)>, key: &str) -> (found: Option<&'a Node>)
    ensures
        match found {
            Some(node) => entry(table@, key@) == Some(*node),
            None => entry(table@, key@) is None,
        },
{
    let ghost keys = keys_of(table@);
    let mut i: usize = 0;
    while i < table.len()
        invariant
            i <= table@.len(),
            keys == keys_of(table@),
            forall|j: int| 0 <= j < i ==> keys[j] != key@,
        decreases table@.len() - i,
    {
        if str_eq(table[i].0.as_str(), key) {
            proof {
                assert(keys[i as int] == key@);
                keys.index_of_first_ensures(key@);
            }
            return Some(&table[i].1);
        }
        assert(keys[i as int] != key@);
        i += 1;
    }
    proof {
        keys.index_of_first_ensures(key@);
    }
    None
}

fn read_text(node: &Node) -> (read: Option<String>)
    ensures
        read.deep_view() == as_text(*node),
{
    match node {
        Node::String(s) => Some(s.clone()),
        _ => None,
    }
}

fn read_flag(node: &Node) -> (read: Option<bool>)
    ensures
        read == as_flag(*node),
{
    match node {
        Node::Boolean(b) => Some(*b),
        _ => None,
    }
}

fn read_count(node: &Node) -> (read: Option<usize>)
    ensures
        read == as_count(*node),
{
    match node {
        Node::Integer(i) => {
            if *i >= 0 && (*i as u64) <= (usize::MAX as u64) {
                Some(*i as usize)
            } else {
                None
            }
        },
        _ => None,
    }
}

fn read_byte(node: &Node) -> (read: Option<u8>)
    ensures
        read == as_byte(*node),
{
    match node {
        Node::Integer(i) => {
            if *i >= 0 && *i <= 255 {
                Some(*i as u8)
            } else {
                None
            }
        },
        _ => None,
    }
}

fn read_texts(node: &Node) -> (read: Option<Vec<String>>)
    ensures
        read.deep_view() == as_texts(*node),
{
    match node {
        Node::Array(items) => {
            let mut out: Vec<String> = Vec::new();
            let mut i: usize = 0;
            while i < items.len()
                invariant
                    *node == Node::Array(*items),
                    i <= items@.len(),
                    out@.len() == i,
                    forall|j: int| 0 <= j < i ==> as_text(#[trigger] items@[j]) == Some(out@[j]@),
                decreases items@.len() - i,
            {
                match read_text(&items[i]) {
                    Some(text) => {
                        out.push(text);
                    },
                    None => {
                        assert(as_text(items@[i as int]) is None);
                        return None;
                    },
                }
                i += 1;
            }
            assert(out.deep_view() =~= Seq::new(items@.len(), |i: int| as_text(items@[i])->0));
            Some(out)
        },
        _ => None,
    }
}

fn read_bytes(node: &Node) -> (read: Option<Vec<u8>>)
    ensures
        read.deep_view() == as_bytes(*node),
{
    match node {
        Node::Array(items) => {
            let mut out: Vec<u8> = Vec::new();
            let mut i: usize = 0;
            while i < items.len()
                invariant
                    *node == Node::Array(*items),
                    i <= items@.len(),
                    out@.len() == i,
                    forall|j: int| 0 <= j < i ==> as_byte(#[trigger] items@[j]) == Some(out@[j]),
                decreases items@.len() - i,
            {
                match read_byte(&items[i]) {
                    Some(byte) => {
                        out.push(byte);
                    },
                    None => {
                        assert(as_byte(items@[i as int]) is None);
                        return None;
                    },
                }
                i += 1;
            }
            assert(out.deep_view() =~= Seq::new(items@.len(), |i: int| as_byte(items@[i])->0));
            Some(out)
        },
        _ => None,
    }
}

fn read_text_or_list(node: &Node) -> (read: Option<OneOrList<String>>)
    ensures
        read.deep_view() == as_text_or_list(*node),
{
    match node {
        Node::String(s) => Some(OneOrList::One(s.clone())),
        _ => match read_texts(node) {
            Some(list) => Some(OneOrList::List(list)),
            None => None,
        },
    }
}

fn read_patterns(node: &Node) -> (read: Option<OneOrList<Vec<u8>>>)
    ensures
        read.deep_view() == as_patterns(*node),
{
    match read_bytes(node) {
        Some(bytes) => Some(OneOrList::One(bytes)),
        None => match node {
            Node::Array(items) => {
                let mut out: Vec<Vec<u8>> = Vec::new();
                let mut i: usize = 0;
                while i < items.len()
                    invariant
                        *node == Node::Array(*items),
                        as_bytes(*node) is None,
                        i <= items@.len(),
                        out@.len() == i,
                        forall|j: int|
                            0 <= j < i ==> as_bytes(#[trigger] items@[j]) == Some(
                                out@[j].deep_view(),
                            ),
                    decreases items@.len() - i,
                {
                    match read_bytes(&items[i]) {
                        Some(bytes) => {
                            out.push(bytes);
                        },
                        None => {
                            assert(as_bytes(items@[i as int]) is None);
                            return None;
                        },
                    }
                    i += 1;
                }
                assert(out.deep_view() =~= Seq::new(
                    items@.len(),
                    |i: int| as_bytes(items@[i])->0,
                ));
                Some(OneOrList::List(out))
            },
            _ => None,
        },
    }
}

fn get_text(table: &Vec<(String, Node)>, key: &str) -> (read: Result<Option<String>, Problem>)
    ensures
        match read {
            Ok(x) => optional(text_at(table@, key@)) == Ok::<_, Problem>(x.deep_view()),
            Err(p) => optional(text_at(table@, key@)) == Err::<Option<Seq<char>>, _>(p),
        },
{
    match lookup(table, key) {
        None => Ok(None),
        Some(node) => match read_text(node) {
            Some(x) => Ok(Some(x)),
            None => Err(Problem::Mismatch),
        },
    }
}

fn need_text(table: &Vec<(String, Node)>, key: &str) -> (read: Result<String, Problem>)
    ensures
        match read {
            Ok(x) => required(text_at(table@, key@)) == Ok::<_, Problem>(x@),
            Err(p) => required(text_at(table@, key@)) == Err::<Seq<char>, _>(p),
        },
{
    match lookup(table, key) {
        None => Err(Problem::Missing),
        Some(node) => match read_text(node) {
            Some(x) => Ok(x),
            None => Err(Problem::Mismatch),
        },
    }
}

fn need_texts(table: &Vec<(String, Node)>, key: &str) -> (read: Result<Vec<String>, Problem>)
    ensures
        match read {
            Ok(x) => required(texts_at(table@, key@)) == Ok::<_, Problem>(x.deep_view()),
            Err(p) => required(texts_at(table@, key@)) == Err::<Seq<Seq<char>>, _>(p),
        },
{
    match lookup(table, key) {
        None => Err(Problem::Missing),
        Some(node) => match read_texts(node) {
            Some(x) => Ok(x),
            None => Err(Problem::Mismatch),
        },
    }
}

fn get_list(table: &Vec<(String, Node)>, key: &str) -> (read: Result<
    Option<OneOrList<String>>,
    Problem,
>)
    ensures
        match read {
            Ok(x) => optional(list_at(table@, key@)) == Ok::<_, Problem>(x.deep_view()),
            Err(p) => optional(list_at(table@, key@)) == Err::<Option<Seq<Seq<char>>>, _>(p),
        },
{
    match lookup(table, key) {
        None => Ok(None),
        Some(node) => match read_text_or_list(node) {
            Some(x) => Ok(Some(x)),
            None => Err(Problem::Mismatch),
        },
    }
}

fn get_patterns(table: &Vec<(String, Node)>, key: &str) -> (read: Result<
    Option<OneOrList<Vec<u8>>>,
    Problem,
>)
    ensures
        match read {
            Ok(x) => optional(patterns_at(table@, key@)) == Ok::<_, Problem>(x.deep_view()),
            Err(p) => optional(patterns_at(table@, key@)) == Err::<Option<Seq<Seq<u8>>>, _>(p),
        },
{
    match lookup(table, key) {
        None => Ok(None),
        Some(node) => match read_patterns(node) {
            Some(x) => Ok(Some(x)),
            None => Err(Problem::Mismatch),
        },
    }
}

fn get_count(table: &Vec<(String, Node)>, key: &str) -> (read: Result<usize, Problem>)
    ensures
        read == defaulted(count_at(table@, key@), 0usize),
{
    match lookup(table, key) {
        None => Ok(0),
        Some(node) => match read_count(node) {
            Some(x) => Ok(x),
            None => Err(Problem::Mismatch),
        },
    }
}

fn get_flag(table: &Vec<(String, Node)>, key: &str) -> (read: Result<bool, Problem>)
    ensures
        read == defaulted(flag_at(table@, key@), false),
{
    match lookup(table, key) {
        None => Ok(false),
        Some(node) => match read_flag(node) {
            Some(x) => Ok(x),
            None => Err(Problem::Mismatch),
        },
    }
}

/// What a decoder of records hands back, as a mathematical value.
pub open spec fn flaw_view(flaw: (Option<String>, Problem)) -> Flaw {
    (flaw.0.deep_view(), flaw.1)
}

fn flaw_in(field: &str, problem: Problem) -> (flaw: (Option<String>, Problem))
    ensures
        flaw_view(flaw) == (Some(field@), problem),
{
    (Some(String::from_str(field)), problem)
}

/// Reads a filetype definition.
pub fn decode_filetype(node: &Node) -> (read: Result<Filetype, (Option<String>, Problem)>)
    ensures
        match read {
            Ok(ft) => decoded_filetype(*node) == Ok::<_, Flaw>(ft@),
            Err(flaw) => decoded_filetype(*node) == Err::<FiletypeView, _>(flaw_view(flaw)),
        },
{
    match node {
        Node::Table(table) => {
            let container = match get_text(table, "container") {
                Ok(x) => x,
                Err(p) => {
                    return Err(flaw_in("container", p));
                },
            };
            let description = match need_text(table, "description") {
                Ok(x) => x,
                Err(p) => {
                    return Err(flaw_in("description", p));
                },
            };
            let extension = match get_list(table, "extension") {
                Ok(x) => x,
                Err(p) => {
                    return Err(flaw_in("extension", p));
                },
            };
            let handler = match get_list(table, "handler") {
                Ok(x) => x,
                Err(p) => {
                    return Err(flaw_in("handler", p));
                },
            };
            let header = match get_patterns(table, "header") {
                Ok(x) => x,
                Err(p) => {
                    return Err(flaw_in("header", p));
                },
            };
            let header_offset = match get_count(table, "header_offset") {
                Ok(x) => x,
                Err(p) => {
                    return Err(flaw_in("header_offset", p));
                },
            };
            let multipage = match get_flag(table, "multipage") {
                Ok(x) => x,
                Err(p) => {
                    return Err(flaw_in("multipage", p));
                },
            };
            Ok(
                Filetype {
                    container,
                    description,
                    extension,
                    handler,
                    header,
                    header_offset,
                    multipage,
                },
            )
        },
        _ => Err((None, Problem::Mismatch)),
    }
}

/// Reads an override rule.
pub fn decode_override(node: &Node) -> (read: Result<Override, (Option<String>, Problem)>)
    ensures
        match read {
            Ok(ov) => decoded_override(*node) == Ok::<_, Flaw>(ov@),
            Err(flaw) => decoded_override(*node) == Err::<OverrideView, _>(flaw_view(flaw)),
        },
{
    match node {
        Node::Table(table) => {
            let path = match need_text(table, "path") {
                Ok(x) => x,
                Err(p) => {
                    return Err(flaw_in("path", p));
                },
            };
            let handler = match get_list(table, "handler") {
                Ok(x) => x,
                Err(p) => {
                    return Err(flaw_in("handler", p));
                },
            };
            let ignore = match get_flag(table, "ignore") {
                Ok(x) => x,
                Err(p) => {
                    return Err(flaw_in("ignore", p));
                },
            };
            let message = match get_text(table, "message") {
                Ok(x) => x,
                Err(p) => {
                    return Err(flaw_in("message", p));
                },
            };
            Ok(Override { path, handler, ignore, message })
        },
        _ => Err((None, Problem::Mismatch)),
    }
}

/// Reads an external handler definition.
pub fn decode_handler(node: &Node) -> (read: Result<Handler, (Option<String>, Problem)>)
    ensures
        match read {
            Ok(h) => decoded_handler(*node) == Ok::<_, Flaw>(h@),
            Err(flaw) => decoded_handler(*node) == Err::<HandlerView, _>(flaw_view(flaw)),
        },
{
    match node {
        Node::Table(table) => {
            let argv = match need_texts(table, "argv") {
                Ok(x) => x,
                Err(p) => {
                    return Err(flaw_in("argv", p));
                },
            };
            let description = match get_text(table, "description") {
                Ok(x) => x,
                Err(p) => {
                    return Err(flaw_in("description", p));
                },
            };
            let fail_if_stderr = match get_text(table, "fail_if_stderr") {
                Ok(x) => x,
                Err(p) => {
                    return Err(flaw_in("fail_if_stderr", p));
                },
            };
            let sources = match get_list(table, "sources") {
                Ok(x) => x,
                Err(p) => {
                    return Err(flaw_in("sources", p));
                },
            };
            Ok(Handler { argv, description, fail_if_stderr, sources })
        },
        _ => Err((None, Problem::Mismatch)),
    }
}

fn record_error(section: &str, key: RecordKey, flaw: (Option<String>, Problem)) -> (e: SchemaError)
    ensures
        e@ == record_flaw(section@, key@, flaw_view(flaw)),
{
    SchemaError {
        section: String::from_str(section),
        record: Some(key),
        field: flaw.0,
        problem: flaw.1,
    }
}

fn section_error(section: &str) -> (e: SchemaError)
    ensures
        e@ == section_flaw(section@),
{
    SchemaError {
        section: String::from_str(section),
        record: None,
        field: None,
        problem: Problem::Mismatch,
    }
}

fn decode_filetypes(table: &Vec<(String, Node)>) -> (read: Result<
    Vec<(String, Filetype)>,
    SchemaError,
>)
    ensures
        match read {
            Ok(list) => decoded_filetypes(table@, table@.len() as int) == Ok::<_, SchemaErrorView>(
                list.deep_view(),
            ),
            Err(e) => decoded_filetypes(table@, table@.len() as int) == Err::<
                Seq<(Seq<char>, FiletypeView)>,
                _,
            >(e@),
        },
{
    let mut out: Vec<(String, Filetype)> = Vec::new();
    let mut i: usize = 0;
    assert(out.deep_view() =~= Seq::<(Seq<char>, FiletypeView)>::empty());
    while i < table.len()
        invariant
            i <= table@.len(),
            decoded_filetypes(table@, i as int) == Ok::<_, SchemaErrorView>(out.deep_view()),
        decreases table@.len() - i,
    {
        let id = &table[i].0;
        let ghost done = out.deep_view();
        let ghost ids = done.map_values(|e: (Seq<char>, FiletypeView)| e.0);
        let mut k: usize = 0;
        while k < out.len()
            invariant
                i < table@.len(),
                id == &table@[i as int].0,
                decoded_filetypes(table@, i as int) == Ok::<_, SchemaErrorView>(done),
                k <= out@.len(),
                done == out.deep_view(),
                ids == done.map_values(|e: (Seq<char>, FiletypeView)| e.0),
                forall|j: int| 0 <= j < k ==> ids[j] != id@,
            decreases out@.len() - k,
        {
            if str_eq(out[k].0.as_str(), id.as_str()) {
                proof {
                    assert(ids[k as int] == id@);
                    assert(decoded_filetypes(table@, i + 1) is Err);
                    lemma_filetypes_flaw_stays(table@, i + 1, table@.len() as int);
                }
                return Err(
                    record_error("filetype", RecordKey::Id(id.clone()), (None, Problem::Duplicate)),
                );
            }
            assert(ids[k as int] != id@);
            k += 1;
        }
        assert(!ids.contains(id@));
        match decode_filetype(&table[i].1) {
            Err(flaw) => {
                proof {
                    assert(decoded_filetypes(table@, i + 1) is Err);
                    lemma_filetypes_flaw_stays(table@, i + 1, table@.len() as int);
                }
                return Err(record_error("filetype", RecordKey::Id(id.clone()), flaw));
            },
            Ok(ft) => {
                out.push((id.clone(), ft));
                assert(out.deep_view() =~= done.push((id@, ft@)));
            },
        }
        i += 1;
    }
    Ok(out)
}

fn decode_handlers(table: &Vec<(String, Node)>) -> (read: Result<
    Vec<(String, Handler)>,
    SchemaError,
>)
    ensures
        match read {
            Ok(list) => decoded_handlers(table@, table@.len() as int) == Ok::<_, SchemaErrorView>(
                list.deep_view(),
            ),
            Err(e) => decoded_handlers(table@, table@.len() as int) == Err::<
                Seq<(Seq<char>, HandlerView)>,
                _,
            >(e@),
        },
{
    let mut out: Vec<(String, Handler)> = Vec::new();
    let mut i: usize = 0;
    assert(out.deep_view() =~= Seq::<(Seq<char>, HandlerView)>::empty());
    while i < table.len()
        invariant
            i <= table@.len(),
            decoded_handlers(table@, i as int) == Ok::<_, SchemaErrorView>(out.deep_view()),
        decreases table@.len() - i,
    {
        let id = &table[i].0;
        let ghost done = out.deep_view();
        let ghost ids = done.map_values(|e: (Seq<char>, HandlerView)| e.0);
        let mut k: usize = 0;
        while k < out.len()
            invariant
                i < table@.len(),
                id == &table@[i as int].0,
                decoded_handlers(table@, i as int) == Ok::<_, SchemaErrorView>(done),
                k <= out@.len(),
                done == out.deep_view(),
                ids == done.map_values(|e: (Seq<char>, HandlerView)| e.0),
                forall|j: int| 0 <= j < k ==> ids[j] != id@,
            decreases out@.len() - k,
        {
            if str_eq(out[k].0.as_str(), id.as_str()) {
                proof {
                    assert(ids[k as int] == id@);
                    assert(decoded_handlers(table@, i + 1) is Err);
                    lemma_handlers_flaw_stays(table@, i + 1, table@.len() as int);
                }
                return Err(
                    record_error("handler", RecordKey::Id(id.clone()), (None, Problem::Duplicate)),
                );
            }
            assert(ids[k as int] != id@);
            k += 1;
        }
        assert(!ids.contains(id@));
        match decode_handler(&table[i].1) {
            Err(flaw) => {
                proof {
                    assert(decoded_handlers(table@, i + 1) is Err);
                    lemma_handlers_flaw_stays(table@, i + 1, table@.len() as int);
                }
                return Err(record_error("handler", RecordKey::Id(id.clone()), flaw));
            },
            Ok(h) => {
                out.push((id.clone(), h));
                assert(out.deep_view() =~= done.push((id@, h@)));
            },
        }
        i += 1;
    }
    Ok(out)
}

fn decode_overrides(items: &Vec<Node>) -> (read: Result<Vec<Override>, SchemaError>)
    ensures
        match read {
            Ok(list) => decoded_overrides(items@, items@.len() as int) == Ok::<_, SchemaErrorView>(
                list.deep_view(),
            ),
            Err(e) => decoded_overrides(items@, items@.len() as int) == Err::<Seq<OverrideView>, _>(
                e@,
            ),
        },
{
    let mut out: Vec<Override> = Vec::new();
    let mut i: usize = 0;
    assert(out.deep_view() =~= Seq::<OverrideView>::empty());
    while i < items.len()
        invariant
            i <= items@.len(),
            decoded_overrides(items@, i as int) == Ok::<_, SchemaErrorView>(out.deep_view()),
        decreases items@.len() - i,
    {
        let ghost done = out.deep_view();
        match decode_override(&items[i]) {
            Err(flaw) => {
                proof {
                    assert(decoded_overrides(items@, i + 1) is Err);
                    lemma_overrides_flaw_stays(items@, i + 1, items@.len() as int);
                }
                return Err(record_error("override", RecordKey::Index(i), flaw));
            },
            Ok(ov) => {
                out.push(ov);
                assert(out.deep_view() =~= done.push(ov@));
            },
        }
        i += 1;
    }
    Ok(out)
}

/// Reads a configuration from a document. Succeeds exactly on the documents
/// that fit the schema; the ids of what it hands back are distinct.
pub fn decode(document: &Node) -> (read: Result<Root, SchemaError>)
    ensures
        match read {
            Ok(root) => decoded(*document) == Ok::<_, SchemaErrorView>(root@) && root@.ids_distinct(),
            Err(e) => decoded(*document) == Err::<RootView, _>(e@),
        },
{
    proof {
        if decoded(*document) is Ok {
            lemma_decoded_ids_distinct(*document);
        }
    }
    match document {
        Node::Table(table) => {
            let filetypes = match lookup(table, "filetype") {
                None => {
                    let none: Vec<(String, Filetype)> = Vec::new();
                    assert(none.deep_view() =~= Seq::empty());
                    none
                },
                Some(Node::Table(entries)) => match decode_filetypes(entries) {
                    Ok(list) => list,
                    Err(e) => {
                        return Err(e);
                    },
                },
                Some(_) => {
                    return Err(section_error("filetype"));
                },
            };
            let overrides = match lookup(table, "override") {
                None => {
                    let none: Vec<Override> = Vec::new();
                    assert(none.deep_view() =~= Seq::empty());
                    none
                },
                Some(Node::Array(items)) => match decode_overrides(items) {
                    Ok(list) => list,
                    Err(e) => {
                        return Err(e);
                    },
                },
                Some(_) => {
                    return Err(section_error("override"));
                },
            };
            let handlers = match lookup(table, "handler") {
                None => {
                    let none: Vec<(String, Handler)> = Vec::new();
                    assert(none.deep_view() =~= Seq::empty());
                    none
                },
                Some(Node::Table(entries)) => match decode_handlers(entries) {
                    Ok(list) => list,
                    Err(e) => {
                        return Err(e);
                    },
                },
                Some(_) => {
                    return Err(section_error("handler"));
                },
            };
            assert(filetype_section(table@) == Ok::<_, SchemaErrorView>(filetypes.deep_view()));
            assert(override_section(table@) == Ok::<_, SchemaErrorView>(overrides.deep_view()));
            assert(handler_section(table@) == Ok::<_, SchemaErrorView>(handlers.deep_view()));
            Ok(Root { filetypes, overrides, handlers })
        },
        _ => {
            let e = SchemaError {
                section: String::new(),
                record: None,
                field: None,
                problem: Problem::Mismatch,
            };
            Err(e)
        },
    }
}

} // verus!
