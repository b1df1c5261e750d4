use vstd::prelude::*;

verus! {

/// What one queried field element of the page yielded: the element was absent,
/// it was present but held no text node, or its first text node's content.
pub enum Field {
    Missing,
    NoText,
    Text(String),
}

/// Mathematical image of `Field`, with the text as a sequence of characters.
pub enum FieldV {
    Missing,
    NoText,
    Text(Seq<char>),
}

impl View for Field {
    type V = FieldV;

    open spec fn view(&self) -> FieldV {
        match self {
            Field::Missing => FieldV::Missing,
            Field::NoText => FieldV::NoText,
            Field::Text(s) => FieldV::Text(s@),
        }
    }
}

impl DeepView for Field {
    type V = FieldV;

    open spec fn deep_view(&self) -> FieldV {
        self.view()
    }
}

/// One visible term entry of the page: its small side (the term) and its
/// large side (the definition), each as the query on the entry yielded it.
pub struct TermEntry {
    pub small: Field,
    pub large: Field,
}

/// Mathematical image of `TermEntry`.
pub struct EntryV {
    pub small: FieldV,
    pub large: FieldV,
}

impl View for TermEntry {
    type V = EntryV;

    open spec fn view(&self) -> EntryV {
        EntryV { small: self.small@, large: self.large@ }
    }
}

impl DeepView for TermEntry {
    type V = EntryV;

    open spec fn deep_view(&self) -> EntryV {
        self.view()
    }
}

/// Everything the extractor reads from one page snapshot:
/// the first text of the `<title>` element (`None` when the document has no
/// title text), the visible term entries of the term-list container (`None`
/// when that container is absent), and the first text of each span of the
/// hidden fallback block in document order (`None` when that block is absent;
/// a span with no text node is `None` inside the list).
pub struct DocModel {
    pub title: Option<String>,
    pub primary: Option<Vec<TermEntry>>,
    pub fallback: Option<Vec<Option<String>>>,
}

/// Mathematical image of `DocModel`.
pub struct DocV {
    pub title: Option<Seq<char>>,
    pub primary: Option<Seq<EntryV>>,
    pub fallback: Option<Seq<Option<Seq<char>>>>,
}

impl DeepView for DocModel {
    type V = DocV;

    open spec fn deep_view(&self) -> DocV {
        DocV {
            title: self.title.deep_view(),
            primary: self.primary.deep_view(),
            fallback: self.fallback.deep_view(),
        }
    }
}

/// One extracted term/definition pair; both fields are non-empty.
#[derive(PartialEq, Eq, Debug)]
pub struct TermPair {
    pub term: String,
    pub definition: String,
}

/// Mathematical image of `TermPair`.
pub struct PairV {
    pub term: Seq<char>,
    pub definition: Seq<char>,
}

impl View for TermPair {
    type V = PairV;

    open spec fn view(&self) -> PairV {
        PairV { term: self.term@, definition: self.definition@ }
    }
}

impl DeepView for TermPair {
    type V = PairV;

    open spec fn deep_view(&self) -> PairV {
        self.view()
    }
}

/// A pair may become a note exactly when both of its fields are non-empty.
pub open spec fn pair_valid(p: PairV) -> bool {
    p.term.len() > 0 && p.definition.len() > 0
}

/// Every pair of the sequence may become a note.
pub open spec fn all_pairs_valid(ps: Seq<PairV>) -> bool {
    forall|i: int| 0 <= i < ps.len() ==> pair_valid(#[trigger] ps[i])
}

/// Why extraction failed; every failure is fatal to the whole run.
#[derive(Clone, Copy, PartialEq, Eq, Structural, Debug)]
pub enum ExtractionError {
    /// The primary term-list container is absent from the document.
    MissingSection,
    /// A term entry lacks its small-side sub-element.
    MissingTermField,
    /// A term entry lacks its large-side sub-element.
    MissingDefinitionField,
    /// A located field element has no text content.
    EmptyFieldText,
    /// The document has no `<title>` text.
    MissingTitle,
}

impl ExtractionError {
    /// The user-visible description of this failure.
    pub open spec fn spec_message(self) -> Seq<char> {
        match self {
            ExtractionError::MissingSection => "can't select the term list"@,
            ExtractionError::MissingTermField => "failed to find the term's small side"@,
            ExtractionError::MissingDefinitionField => "failed to find the term's large side"@,
            ExtractionError::EmptyFieldText => "a field element has no text"@,
            ExtractionError::MissingTitle => "couldn't find the page title"@,
        }
    }

    pub fn message(&self) -> (r: &'static str)
        ensures
            r@ == self.spec_message(),
    {
        match self {
            ExtractionError::MissingSection => "can't select the term list",
            ExtractionError::MissingTermField => "failed to find the term's small side",
            ExtractionError::MissingDefinitionField => "failed to find the term's large side",
            ExtractionError::EmptyFieldText => "a field element has no text",
            ExtractionError::MissingTitle => "couldn't find the page title",
        }
    }
}

} // verus!
