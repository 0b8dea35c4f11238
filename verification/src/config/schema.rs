//! The configuration schema: filetype definitions, override rules and
//! external handler definitions, with their mathematical views.
//!
//! Every rule of the library is stated over the views, in which a field that
//! accepts one entry or a list of entries is always a sequence.

use vstd::prelude::*;

verus! {

/// A field that holds one entry, or a list of entries.
///
/// The two shapes only differ in how the configuration was written: the view
/// of `One(x)` is the one-element sequence of `x`.
#[derive(Debug, PartialEq, Eq)]
pub enum OneOrList<T> {
    /// A bare entry, shorthand for a list of one
    One(T),
    /// More than one entry
    List(Vec<T>),
}

impl<T: DeepView> DeepView for OneOrList<T> {
    type V = Seq<T::V>;

    open spec fn deep_view(&self) -> Seq<T::V> {
        match self {
            OneOrList::One(x) => seq![x.deep_view()],
            OneOrList::List(v) => v.deep_view(),
        }
    }
}

impl<T: DeepView> View for OneOrList<T> {
    type V = Seq<T::V>;

    open spec fn view(&self) -> Seq<T::V> {
        self.deep_view()
    }
}

impl<T> OneOrList<T> {
    /// The entries themselves, in order.
    pub open spec fn items(self) -> Seq<T> {
        match self {
            OneOrList::One(x) => seq![x],
            OneOrList::List(v) => v@,
        }
    }

    /// The number of entries.
    pub fn len(&self) -> (n: usize)
        ensures
            n == self.items().len(),
    {
        match self {
            OneOrList::One(_) => 1,
            OneOrList::List(v) => v.len(),
        }
    }

    /// Whether there is no entry at all (only an empty list has none).
    pub fn is_empty(&self) -> (empty: bool)
        ensures
            empty == (self.items().len() == 0),
    {
        self.len() == 0
    }

    /// The entry at position `i`.
    pub fn get(&self, i: usize) -> (item: &T)
        requires
            i < self.items().len(),
        ensures
            *item == self.items()[i as int],
    {
        match self {
            OneOrList::One(x) => x,
            OneOrList::List(v) => &v[i],
        }
    }
}

/// The view of a list of entries is the sequence of the entries' views.
pub proof fn lemma_items_view<T: DeepView>(field: OneOrList<T>)
    ensures
        field@.len() == field.items().len(),
        forall|i: int|
            #![trigger field@[i]]
            #![trigger field.items()[i]]
            0 <= i < field.items().len() ==> field@[i] == field.items()[i].deep_view(),
{
}

/// How a file format is recognised and which handlers check it.
#[derive(Debug, PartialEq, Eq)]
pub struct Filetype {
    /// The id of another filetype that this one specialises
    pub container: Option<String>,
    /// A description for status messages
    pub description: String,
    /// Extensions that identify the format, written without the leading period
    pub extension: Option<OneOrList<String>>,
    /// The fallback chain of handler ids for exactly this format
    pub handler: Option<OneOrList<String>>,
    /// Byte patterns that identify the format
    pub header: Option<OneOrList<Vec<u8>>>,
    /// The number of bytes to skip before a header pattern is compared
    pub header_offset: usize,
    /// A hint that is handed through to image handlers
    pub multipage: bool,
}

/// The mathematical value of a [`Filetype`].
pub struct FiletypeView {
    pub container: Option<Seq<char>>,
    pub description: Seq<char>,
    pub extension: Option<Seq<Seq<char>>>,
    pub handler: Option<Seq<Seq<char>>>,
    pub header: Option<Seq<Seq<u8>>>,
    pub header_offset: usize,
    pub multipage: bool,
}

impl DeepView for Filetype {
    type V = FiletypeView;

    open spec fn deep_view(&self) -> FiletypeView {
        FiletypeView {
            container: self.container.deep_view(),
            description: self.description@,
            extension: self.extension.deep_view(),
            handler: self.handler.deep_view(),
            header: self.header.deep_view(),
            header_offset: self.header_offset,
            multipage: self.multipage,
        }
    }
}

impl View for Filetype {
    type V = FiletypeView;

    open spec fn view(&self) -> FiletypeView {
        self.deep_view()
    }
}

/// A rule that ignores the paths matching a glob, or forces a handler chain on them.
#[derive(Debug, PartialEq, Eq)]
pub struct Override {
    /// The glob that selects the paths
    pub path: String,
    /// The handler chain to use in place of autodetection
    pub handler: Option<OneOrList<String>>,
    /// Whether matching files are skipped and matching directories not entered
    pub ignore: bool,
    /// A status message to show when the rule matches
    pub message: Option<String>,
}

/// The mathematical value of an [`Override`].
pub struct OverrideView {
    pub path: Seq<char>,
    pub handler: Option<Seq<Seq<char>>>,
    pub ignore: bool,
    pub message: Option<Seq<char>>,
}

impl DeepView for Override {
    type V = OverrideView;

    open spec fn deep_view(&self) -> OverrideView {
        OverrideView {
            path: self.path@,
            handler: self.handler.deep_view(),
            ignore: self.ignore,
            message: self.message.deep_view(),
        }
    }
}

impl View for Override {
    type V = OverrideView;

    open spec fn view(&self) -> OverrideView {
        self.deep_view()
    }
}

/// An external handler: a command that judges a file.
#[derive(Debug, PartialEq, Eq)]
pub struct Handler {
    /// The command line, in which `{path}` and `{devnull}` are substituted
    pub argv: Vec<String>,
    /// A description to show in place of the command name
    pub description: Option<String>,
    /// Text whose presence in the command's error output means failure
    pub fail_if_stderr: Option<String>,
    /// Addresses from which the command can be installed
    pub sources: Option<OneOrList<String>>,
}

/// The mathematical value of a [`Handler`].
pub struct HandlerView {
    pub argv: Seq<Seq<char>>,
    pub description: Option<Seq<char>>,
    pub fail_if_stderr: Option<Seq<char>>,
    pub sources: Option<Seq<Seq<char>>>,
}

impl DeepView for Handler {
    type V = HandlerView;

    open spec fn deep_view(&self) -> HandlerView {
        HandlerView {
            argv: self.argv.deep_view(),
            description: self.description.deep_view(),
            fail_if_stderr: self.fail_if_stderr.deep_view(),
            sources: self.sources.deep_view(),
        }
    }
}

impl View for Handler {
    type V = HandlerView;

    open spec fn view(&self) -> HandlerView {
        self.deep_view()
    }
}

/// A whole configuration. Filetypes and handlers are kept as lists of
/// `(id, definition)`, in the order in which the tables of the document hold
/// them: a configuration that was read from text has them sorted by id.
#[derive(Debug, PartialEq, Eq)]
pub struct Root {
    /// The filetype definitions, by id
    pub filetypes: Vec<(String, Filetype)>,
    /// The override rules; the first that matches a path decides
    pub overrides: Vec<Override>,
    /// The external handler definitions, by id
    pub handlers: Vec<(String, Handler)>,
}

/// The mathematical value of a [`Root`].
pub struct RootView {
    pub filetypes: Seq<(Seq<char>, FiletypeView)>,
    pub overrides: Seq<OverrideView>,
    pub handlers: Seq<(Seq<char>, HandlerView)>,
}

impl DeepView for Root {
    type V = RootView;

    open spec fn deep_view(&self) -> RootView {
        RootView {
            filetypes: self.filetypes.deep_view(),
            overrides: self.overrides.deep_view(),
            handlers: self.handlers.deep_view(),
        }
    }
}

impl View for Root {
    type V = RootView;

    open spec fn view(&self) -> RootView {
        self.deep_view()
    }
}

impl RootView {
    /// The ids of the filetypes, in order.
    pub open spec fn filetype_ids(self) -> Seq<Seq<char>> {
        self.filetypes.map_values(|e: (Seq<char>, FiletypeView)| e.0)
    }

    /// The ids of the external handlers, in order.
    pub open spec fn handler_ids(self) -> Seq<Seq<char>> {
        self.handlers.map_values(|e: (Seq<char>, HandlerView)| e.0)
    }

    /// No id names two filetypes and none names two handlers.
    pub open spec fn ids_distinct(self) -> bool {
        self.filetype_ids().no_duplicates() && self.handler_ids().no_duplicates()
    }
}

} // verus!
