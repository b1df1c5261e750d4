use vstd::prelude::*;

use crate::model::{all_pairs_valid, pair_valid, DocModel, DocV, EntryV, ExtractionError, Field, FieldV, PairV, TermEntry, TermPair};
use crate::text::{trim_spec, trim_str};

verus! {

/// The pair a single visible term entry yields, or the first failure met
/// while reading the entry: the small side is resolved before the large one,
/// a missing sub-element before an empty text.
pub open spec fn entry_pair(e: EntryV) -> Result<PairV, ExtractionError> {
    match e.small {
        FieldV::Missing => Err(ExtractionError::MissingTermField),
        FieldV::NoText => Err(ExtractionError::EmptyFieldText),
        FieldV::Text(t) => if t.len() == 0 {
            Err(ExtractionError::EmptyFieldText)
        } else {
            match e.large {
                FieldV::Missing => Err(ExtractionError::MissingDefinitionField),
                FieldV::NoText => Err(ExtractionError::EmptyFieldText),
                FieldV::Text(d) => if d.len() == 0 {
                    Err(ExtractionError::EmptyFieldText)
                } else {
                    Ok(PairV { term: t, definition: d })
                },
            }
        },
    }
}

/// The pairs of the primary pass over the visible term entries, in source
/// order; the pass aborts with the failure of the first malformed entry.
pub open spec fn primary_pairs(es: Seq<EntryV>) -> Result<Seq<PairV>, ExtractionError>
    decreases es.len(),
{
    if es.len() == 0 {
        Ok(Seq::empty())
    } else {
        match entry_pair(es[0]) {
            Err(e) => Err(e),
            Ok(p) => match primary_pairs(es.skip(1)) {
                Err(e) => Err(e),
                Ok(rest) => Ok(seq![p] + rest),
            },
        }
    }
}

/// The text a fallback span contributes: its first text node, which must be
/// present and non-empty.
pub open spec fn span_text(t: Option<Seq<char>>) -> Result<Seq<char>, ExtractionError> {
    match t {
        None => Err(ExtractionError::EmptyFieldText),
        Some(s) => if s.len() == 0 {
            Err(ExtractionError::EmptyFieldText)
        } else {
            Ok(s)
        },
    }
}

/// The pairs of the fallback pass: consecutive spans are paired in document
/// order (term, then definition); a trailing unpaired span is discarded; a
/// paired span without text aborts the pass, earliest span first.
pub open spec fn fallback_pairs(ss: Seq<Option<Seq<char>>>) -> Result<Seq<PairV>, ExtractionError>
    decreases ss.len(),
{
    if ss.len() < 2 {
        Ok(Seq::empty())
    } else {
        match span_text(ss[0]) {
            Err(e) => Err(e),
            Ok(t) => match span_text(ss[1]) {
                Err(e) => Err(e),
                Ok(d) => match fallback_pairs(ss.skip(2)) {
                    Err(e) => Err(e),
                    Ok(rest) => Ok(seq![PairV { term: t, definition: d }] + rest),
                },
            },
        }
    }
}

/// The spans of the fallback block; an absent block contributes none.
pub open spec fn doc_spans(d: DocV) -> Seq<Option<Seq<char>>> {
    match d.fallback {
        None => Seq::empty(),
        Some(ss) => ss,
    }
}

/// What extraction returns on a whole document: the primary container is
/// mandatory, its pass runs first, then the fallback pass over the hidden
/// block, then the title is read and trimmed; the pair sequences are
/// concatenated, primary pairs first.
pub open spec fn spec_extract(d: DocV) -> Result<(Seq<PairV>, Seq<char>), ExtractionError> {
    match d.primary {
        None => Err(ExtractionError::MissingSection),
        Some(es) => match primary_pairs(es) {
            Err(e) => Err(e),
            Ok(pp) => match fallback_pairs(doc_spans(d)) {
                Err(e) => Err(e),
                Ok(fp) => match d.title {
                    None => Err(ExtractionError::MissingTitle),
                    Some(t) => Ok((pp + fp, trim_spec(t))),
                },
            },
        },
    }
}

/// The mathematical image of an extraction result.
pub open spec fn result_view(r: Result<(Vec<TermPair>, String), ExtractionError>) -> Result<
    (Seq<PairV>, Seq<char>),
    ExtractionError,
> {
    match r {
        Ok(p) => Ok((p.0.deep_view(), p.1@)),
        Err(e) => Err(e),
    }
}

proof fn lemma_primary_concat(a: Seq<EntryV>, b: Seq<EntryV>)
    ensures
        primary_pairs(a + b) == (match primary_pairs(a) {
            Err(e) => Err(e),
            Ok(pa) => match primary_pairs(b) {
                Err(e) => Err(e),
                Ok(pb) => Ok(pa + pb),
            },
        }),
    decreases a.len(),
{
    if a.len() == 0 {
        assert(a + b =~= b);
        match primary_pairs(b) {
            Err(_) => {},
            Ok(pb) => {
                assert(Seq::<PairV>::empty() + pb =~= pb);
            },
        }
    } else {
        assert((a + b)[0] == a[0]);
        assert((a + b).skip(1) =~= a.skip(1) + b);
        lemma_primary_concat(a.skip(1), b);
        match entry_pair(a[0]) {
            Err(_) => {},
            Ok(p) => {
                match primary_pairs(a.skip(1)) {
                    Err(_) => {},
                    Ok(pr) => {
                        match primary_pairs(b) {
                            Err(_) => {},
                            Ok(pb) => {
                                assert(seq![p] + (pr + pb) =~= (seq![p] + pr) + pb);
                            },
                        }
                    },
                }
            },
        }
    }
}

proof fn lemma_fallback_concat(a: Seq<Option<Seq<char>>>, b: Seq<Option<Seq<char>>>)
    requires
        a.len() % 2 == 0,
    ensures
        fallback_pairs(a + b) == (match fallback_pairs(a) {
            Err(e) => Err(e),
            Ok(pa) => match fallback_pairs(b) {
                Err(e) => Err(e),
                Ok(pb) => Ok(pa + pb),
            },
        }),
    decreases a.len(),
{
    if a.len() == 0 {
        assert(a + b =~= b);
        match fallback_pairs(b) {
            Err(_) => {},
            Ok(pb) => {
                assert(Seq::<PairV>::empty() + pb =~= pb);
            },
        }
    } else {
        assert((a + b)[0] == a[0]);
        assert((a + b)[1] == a[1]);
        assert((a + b).skip(2) =~= a.skip(2) + b);
        lemma_fallback_concat(a.skip(2), b);
        match (span_text(a[0]), span_text(a[1])) {
            (Ok(t), Ok(d)) => {
                match fallback_pairs(a.skip(2)) {
                    Err(_) => {},
                    Ok(pr) => {
                        match fallback_pairs(b) {
                            Err(_) => {},
                            Ok(pb) => {
                                let p = PairV { term: t, definition: d };
                                assert(seq![p] + (pr + pb) =~= (seq![p] + pr) + pb);
                            },
                        }
                    },
                }
            },
            _ => {},
        }
    }
}

/// Every visible term entry yields a pair.
pub open spec fn entries_wellformed(es: Seq<EntryV>) -> bool {
    forall|i: int| 0 <= i < es.len() ==> entry_pair(#[trigger] es[i]) is Ok
}

/// Every fallback span carries non-empty text.
pub open spec fn spans_wellformed(ss: Seq<Option<Seq<char>>>) -> bool {
    forall|k: int| 0 <= k < ss.len() ==> span_text(#[trigger] ss[k]) is Ok
}

/// Law: over well-formed entries the primary pass succeeds with one pair per
/// entry, in source order.
pub proof fn lemma_primary_all_ok(es: Seq<EntryV>)
    requires
        entries_wellformed(es),
    ensures
        primary_pairs(es) is Ok,
        primary_pairs(es)->Ok_0.len() == es.len(),
        forall|i: int|
            0 <= i < es.len() ==> #[trigger] primary_pairs(es)->Ok_0[i] == entry_pair(es[i])->Ok_0,
    decreases es.len(),
{
    if es.len() > 0 {
        assert(entries_wellformed(es.skip(1))) by {
            assert(forall|i: int|
                0 <= i < es.skip(1).len() ==> #[trigger] es.skip(1)[i] == es[i + 1]);
        }
        lemma_primary_all_ok(es.skip(1));
    }
}

/// Law: over well-formed spans the fallback pass succeeds with one pair per
/// two consecutive spans, in document order, the last span of an odd count
/// discarded.
pub proof fn lemma_fallback_all_ok(ss: Seq<Option<Seq<char>>>)
    requires
        spans_wellformed(ss),
    ensures
        fallback_pairs(ss) is Ok,
        fallback_pairs(ss)->Ok_0.len() == ss.len() / 2,
        forall|k: int|
            0 <= k < ss.len() / 2 ==> #[trigger] fallback_pairs(ss)->Ok_0[k] == (PairV {
                term: span_text(ss[2 * k])->Ok_0,
                definition: span_text(ss[2 * k + 1])->Ok_0,
            }),
    decreases ss.len(),
{
    if ss.len() >= 2 {
        assert(spans_wellformed(ss.skip(2))) by {
            assert(forall|k: int|
                0 <= k < ss.skip(2).len() ==> #[trigger] ss.skip(2)[k] == ss[k + 2]);
        }
        lemma_fallback_all_ok(ss.skip(2));
        let head = PairV {
            term: span_text(ss[0])->Ok_0,
            definition: span_text(ss[1])->Ok_0,
        };
        let rest = fallback_pairs(ss.skip(2))->Ok_0;
        assert(fallback_pairs(ss)->Ok_0 == seq![head] + rest);
        assert forall|k: int| 0 <= k < ss.len() / 2 implies #[trigger] fallback_pairs(
            ss,
        )->Ok_0[k] == (PairV {
            term: span_text(ss[2 * k])->Ok_0,
            definition: span_text(ss[2 * k + 1])->Ok_0,
        }) by {
            if k > 0 {
                assert((seq![head] + rest)[k] == rest[k - 1]);
                assert(ss.skip(2)[2 * (k - 1)] == ss[2 * k]);
                assert(ss.skip(2)[2 * (k - 1) + 1] == ss[2 * k + 1]);
            }
        }
    }
}

/// Law: on a document with the primary container, a title, well-formed
/// entries and well-formed fallback spans, extraction succeeds and returns
/// the primary pairs followed by the fallback pairs: with M entries and 2K
/// or 2K+1 spans, exactly M + K pairs.
pub proof fn lemma_extract_shape(d: DocV)
    requires
        d.primary is Some,
        d.title is Some,
        entries_wellformed(d.primary->0),
        spans_wellformed(doc_spans(d)),
    ensures
        spec_extract(d) is Ok,
        spec_extract(d)->Ok_0.0 == primary_pairs(d.primary->0)->Ok_0 + fallback_pairs(
            doc_spans(d),
        )->Ok_0,
        spec_extract(d)->Ok_0.0.len() == d.primary->0.len() + doc_spans(d).len() / 2,
{
    lemma_primary_all_ok(d.primary->0);
    lemma_fallback_all_ok(doc_spans(d));
}

/// Law: every pair the primary pass yields has a non-empty term and
/// definition.
pub proof fn lemma_primary_pairs_valid(es: Seq<EntryV>)
    requires
        primary_pairs(es) is Ok,
    ensures
        all_pairs_valid(primary_pairs(es)->Ok_0),
    decreases es.len(),
{
    if es.len() > 0 {
        lemma_primary_pairs_valid(es.skip(1));
        let p = entry_pair(es[0])->Ok_0;
        let rest = primary_pairs(es.skip(1))->Ok_0;
        assert forall|i: int| 0 <= i < (seq![p] + rest).len() implies pair_valid(
            #[trigger] (seq![p] + rest)[i],
        ) by {
            if i > 0 {
                assert((seq![p] + rest)[i] == rest[i - 1]);
            }
        }
    }
}

/// Law: every pair the fallback pass yields has a non-empty term and
/// definition.
pub proof fn lemma_fallback_pairs_valid(ss: Seq<Option<Seq<char>>>)
    requires
        fallback_pairs(ss) is Ok,
    ensures
        all_pairs_valid(fallback_pairs(ss)->Ok_0),
    decreases ss.len(),
{
    if ss.len() >= 2 {
        lemma_fallback_pairs_valid(ss.skip(2));
        let p = PairV { term: span_text(ss[0])->Ok_0, definition: span_text(ss[1])->Ok_0 };
        let rest = fallback_pairs(ss.skip(2))->Ok_0;
        assert forall|i: int| 0 <= i < (seq![p] + rest).len() implies pair_valid(
            #[trigger] (seq![p] + rest)[i],
        ) by {
            if i > 0 {
                assert((seq![p] + rest)[i] == rest[i - 1]);
            }
        }
    }
}

/// Law: every pair a successful extraction returns has a non-empty term and
/// definition, so assembling the extracted pairs never meets an invalid card.
pub proof fn lemma_extracted_pairs_valid(d: DocV)
    requires
        spec_extract(d) is Ok,
    ensures
        all_pairs_valid(spec_extract(d)->Ok_0.0),
{
    let es = d.primary->0;
    let ss = doc_spans(d);
    lemma_primary_pairs_valid(es);
    lemma_fallback_pairs_valid(ss);
    let pp = primary_pairs(es)->Ok_0;
    let fp = fallback_pairs(ss)->Ok_0;
    assert forall|i: int| 0 <= i < (pp + fp).len() implies pair_valid(#[trigger] (pp + fp)[i]) by {
        if i >= pp.len() {
            assert((pp + fp)[i] == fp[i - pp.len()]);
        }
    }
}

/// Law: a document whose primary container is absent fails with
/// `MissingSection`, whatever its fallback block and title hold.
pub proof fn lemma_missing_section(d: DocV)
    requires
        d.primary is None,
    ensures
        spec_extract(d) == Err::<(Seq<PairV>, Seq<char>), ExtractionError>(
            ExtractionError::MissingSection,
        ),
{
}

/// Law: a fallback block with an odd, trailing, unpaired span extracts
/// exactly as the same document with that span absent.
pub proof fn lemma_odd_trailing_span(d: DocV)
    requires
        d.fallback is Some,
        d.fallback->0.len() % 2 == 1,
    ensures
        spec_extract(d) == spec_extract(
            DocV { fallback: Some(d.fallback->0.drop_last()), ..d },
        ),
{
    let ss = d.fallback->0;
    let a = ss.drop_last();
    assert(a + seq![ss.last()] =~= ss);
    lemma_fallback_concat(a, seq![ss.last()]);
    match fallback_pairs(a) {
        Ok(pa) => {
            assert(pa + Seq::<PairV>::empty() =~= pa);
        },
        Err(_) => {},
    }
    assert(fallback_pairs(ss) == fallback_pairs(a));
    assert(doc_spans(DocV { fallback: Some(a), ..d }) == a);
}

/// The primary pass over the visible term entries.
fn primary_pass(entries: &Vec<TermEntry>) -> (r: Result<Vec<TermPair>, ExtractionError>)
    ensures
        match r {
            Ok(ps) => primary_pairs(entries.deep_view()) == Ok::<Seq<PairV>, ExtractionError>(
                ps.deep_view(),
            ),
            Err(e) => primary_pairs(entries.deep_view()) == Err::<Seq<PairV>, ExtractionError>(e),
        },
{
    let ghost es = entries.deep_view();
    let mut pairs: Vec<TermPair> = Vec::new();
    let mut i: usize = 0;
    proof {
        assert(es.take(0) =~= Seq::<EntryV>::empty());
        assert(pairs.deep_view() =~= Seq::<PairV>::empty());
    }
    while i < entries.len()
        invariant
            es == entries.deep_view(),
            0 <= i <= entries.len(),
            es.len() == entries.len(),
            primary_pairs(es.take(i as int)) == Ok::<Seq<PairV>, ExtractionError>(
                pairs.deep_view(),
            ),
        decreases entries.len() - i,
    {
        let entry = &entries[i];
        assert(entry.deep_view() == es[i as int]);
        proof {
            assert(es.take(i as int) + es.skip(i as int) =~= es);
            lemma_primary_concat(es.take(i as int), es.skip(i as int));
            assert(es.skip(i as int)[0] == es[i as int]);
        }
        let term: &String = match &entry.small {
            Field::Missing => {
                return Err(ExtractionError::MissingTermField);
            },
            Field::NoText => {
                return Err(ExtractionError::EmptyFieldText);
            },
            Field::Text(t) => t,
        };
        if term.as_str().is_empty() {
            return Err(ExtractionError::EmptyFieldText);
        }
        let definition: &String = match &entry.large {
            Field::Missing => {
                return Err(ExtractionError::MissingDefinitionField);
            },
            Field::NoText => {
                return Err(ExtractionError::EmptyFieldText);
            },
            Field::Text(d) => d,
        };
        if definition.as_str().is_empty() {
            return Err(ExtractionError::EmptyFieldText);
        }
        let pair = TermPair { term: term.clone(), definition: definition.clone() };
        proof {
            assert(es[i as int].small == FieldV::Text(term@));
            assert(es[i as int].large == FieldV::Text(definition@));
            assert(entry_pair(es[i as int]) == Ok::<PairV, ExtractionError>(pair.deep_view()));
            let one = seq![es[i as int]];
            assert(es.take(i + 1 as int) =~= es.take(i as int) + one);
            lemma_primary_concat(es.take(i as int), one);
            assert(one.skip(1) =~= Seq::<EntryV>::empty());
            assert(primary_pairs(one.skip(1)) == Ok::<Seq<PairV>, ExtractionError>(
                Seq::<PairV>::empty(),
            ));
            assert(one.len() == 1 && one[0] == es[i as int]);
            assert(primary_pairs(one) == Ok::<Seq<PairV>, ExtractionError>(
                seq![entry_pair(es[i as int])->Ok_0] + Seq::<PairV>::empty(),
            ));
        }
        let ghost old_pairs = pairs.deep_view();
        pairs.push(pair);
        proof {
            assert(pairs.deep_view() =~= old_pairs.push(pair.deep_view()));
            assert(old_pairs + (seq![entry_pair(es[i as int])->Ok_0] + Seq::<PairV>::empty())
                =~= old_pairs.push(entry_pair(es[i as int])->Ok_0));
        }
        i = i + 1;
    }
    proof {
        assert(es.take(es.len() as int) =~= es);
    }
    Ok(pairs)
}

/// The fallback pass over the hidden block's spans.
fn fallback_pass(spans: &Vec<Option<String>>) -> (r: Result<Vec<TermPair>, ExtractionError>)
    ensures
        match r {
            Ok(ps) => fallback_pairs(spans.deep_view()) == Ok::<Seq<PairV>, ExtractionError>(
                ps.deep_view(),
            ),
            Err(e) => fallback_pairs(spans.deep_view()) == Err::<Seq<PairV>, ExtractionError>(e),
        },
{
    let ghost ss = spans.deep_view();
    let mut pairs: Vec<TermPair> = Vec::new();
    let mut i: usize = 0;
    proof {
        assert(ss.take(0) =~= Seq::<Option<Seq<char>>>::empty());
        assert(pairs.deep_view() =~= Seq::<PairV>::empty());
    }
    while i < spans.len() && i + 1 < spans.len()
        invariant
            ss == spans.deep_view(),
            0 <= i <= spans.len(),
            i % 2 == 0,
            ss.len() == spans.len(),
            fallback_pairs(ss.take(i as int)) == Ok::<Seq<PairV>, ExtractionError>(
                pairs.deep_view(),
            ),
        decreases spans.len() - i,
    {
        proof {
            assert(ss.take(i as int) + ss.skip(i as int) =~= ss);
            lemma_fallback_concat(ss.take(i as int), ss.skip(i as int));
            assert(ss.skip(i as int)[0] == ss[i as int]);
            assert(ss.skip(i as int)[1] == ss[i + 1 as int]);
        }
        let term: &String = match &spans[i] {
            None => {
                return Err(ExtractionError::EmptyFieldText);
            },
            Some(t) => t,
        };
        if term.as_str().is_empty() {
            return Err(ExtractionError::EmptyFieldText);
        }
        let definition: &String = match &spans[i + 1] {
            None => {
                return Err(ExtractionError::EmptyFieldText);
            },
            Some(d) => d,
        };
        if definition.as_str().is_empty() {
            return Err(ExtractionError::EmptyFieldText);
        }
        let pair = TermPair { term: term.clone(), definition: definition.clone() };
        proof {
            assert(ss[i as int] == Some(term@));
            assert(ss[i + 1 as int] == Some(definition@));
            assert(span_text(ss[i as int]) == Ok::<Seq<char>, ExtractionError>(term@));
            assert(span_text(ss[i + 1 as int]) == Ok::<Seq<char>, ExtractionError>(definition@));
            let two = seq![ss[i as int], ss[i + 1 as int]];
            assert(ss.take(i + 2 as int) =~= ss.take(i as int) + two);
            lemma_fallback_concat(ss.take(i as int), two);
            assert(two.skip(2) =~= Seq::<Option<Seq<char>>>::empty());
            assert(fallback_pairs(two.skip(2)) == Ok::<Seq<PairV>, ExtractionError>(
                Seq::<PairV>::empty(),
            ));
            assert(two.len() == 2 && two[0] == ss[i as int] && two[1] == ss[i + 1 as int]);
            assert(fallback_pairs(two) == Ok::<Seq<PairV>, ExtractionError>(
                seq![pair.deep_view()] + Seq::<PairV>::empty(),
            ));
        }
        let ghost old_pairs = pairs.deep_view();
        pairs.push(pair);
        proof {
            assert(pairs.deep_view() =~= old_pairs.push(pair.deep_view()));
            assert(old_pairs + (seq![pair.deep_view()] + Seq::<PairV>::empty()) =~= old_pairs.push(
                pair.deep_view(),
            ));
        }
        i = i + 2;
    }
    proof {
        assert(ss.take(i as int) + ss.skip(i as int) =~= ss);
        lemma_fallback_concat(ss.take(i as int), ss.skip(i as int));
        assert(ss.skip(i as int).len() < 2);
        match fallback_pairs(ss.take(i as int)) {
            Ok(pa) => {
                assert(pa + Seq::<PairV>::empty() =~= pa);
            },
            Err(_) => {},
        }
    }
    Ok(pairs)
}

/// Extracts the ordered term/definition pairs and the trimmed page title from
/// one scanned document, or the first failure the passes meet: the primary
/// container is mandatory, the fallback block optional, and primary pairs
/// precede fallback pairs in the result.
pub fn extract_document(doc: &DocModel) -> (r: Result<(Vec<TermPair>, String), ExtractionError>)
    ensures
        result_view(r) == spec_extract(doc.deep_view()),
{
    let entries = match &doc.primary {
        None => {
            return Err(ExtractionError::MissingSection);
        },
        Some(es) => es,
    };
    let mut pairs = match primary_pass(entries) {
        Err(e) => {
            return Err(e);
        },
        Ok(ps) => ps,
    };
    let mut tail = match &doc.fallback {
        None => Vec::new(),
        Some(ss) => match fallback_pass(ss) {
            Err(e) => {
                return Err(e);
            },
            Ok(ps) => ps,
        },
    };
    proof {
        if doc.fallback is None {
            assert(doc_spans(doc.deep_view()) =~= Seq::<Option<Seq<char>>>::empty());
        }
    }
    let title = match &doc.title {
        None => {
            return Err(ExtractionError::MissingTitle);
        },
        Some(t) => t,
    };
    let ghost front = pairs.deep_view();
    let ghost back = tail.deep_view();
    pairs.append(&mut tail);
    proof {
        assert(pairs.deep_view() =~= front + back);
    }
    Ok((pairs, trim_str(title.as_str())))
}

} // verus!

