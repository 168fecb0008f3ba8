//! The push API: turns the body of a request into the documents to ingest.

use vstd::prelude::*;
use vstd::utf8::{
    decode_utf8, encode_utf8, encode_utf8_decode_utf8, encode_utf8_valid_utf8, valid_utf8,
};

use crate::strings::{
    decode, is_white_space, joined, slice_texts, split_lines, text_lines, trim, trimmed,
    without_carriage_return,
};

verus! {

/// Why a request never reaches the ingest service.
#[derive(Debug, PartialEq, Eq, Clone, Copy)]
pub enum PushApiRejection {
    /// The body is not UTF-8.
    InvalidUtf8,
    /// There is no ingest service to hand the documents to.
    PushApiServiceUnavailable,
}

impl PushApiRejection {
    /// The text that a client is shown.
    pub open spec fn spec_message(self) -> Seq<char> {
        match self {
            PushApiRejection::InvalidUtf8 => "Body is not utf-8."@,
            PushApiRejection::PushApiServiceUnavailable => "The PushAPI is not available."@,
        }
    }

    /// The text that a client is shown.
    pub fn message(&self) -> (res: String)
        ensures
            res@ == self.spec_message(),
    {
        match self {
            PushApiRejection::InvalidUtf8 => "Body is not utf-8.".to_string(),
            PushApiRejection::PushApiServiceUnavailable => {
                "The PushAPI is not available.".to_string()
            },
        }
    }
}

/// Documents for one index, in the order in which they are to be added.
#[derive(Debug, PartialEq, Eq)]
pub struct DocBatch {
    pub index_id: String,
    pub docs: Vec<Vec<u8>>,
}

/// Mathematical value of a [`DocBatch`].
pub struct DocBatchView {
    pub index_id: Seq<char>,
    pub docs: Seq<Seq<u8>>,
}

impl View for DocBatch {
    type V = DocBatchView;

    open spec fn view(&self) -> DocBatchView {
        DocBatchView {
            index_id: self.index_id@,
            docs: self.docs@.map_values(|doc: Vec<u8>| doc@),
        }
    }
}

/// What the ingest service is asked to store.
#[derive(Debug, PartialEq, Eq)]
pub struct IngestRequest {
    pub doc_batches: Vec<DocBatch>,
}

impl View for IngestRequest {
    type V = Seq<DocBatchView>;

    open spec fn view(&self) -> Seq<DocBatchView> {
        self.doc_batches@.map_values(|batch: DocBatch| batch@)
    }
}

/// `lines` without surrounding white space, those that are blank left out.
pub open spec fn documents_of_lines(lines: Seq<Seq<char>>) -> Seq<Seq<char>> {
    lines.map_values(|line: Seq<char>| trimmed(line)).filter(
        |document: Seq<char>| document.len() > 0,
    )
}

/// The documents of a payload: its lines without surrounding white space, those
/// that are blank left out.
pub open spec fn documents(payload: Seq<char>) -> Seq<Seq<char>> {
    documents_of_lines(split_lines(payload))
}

/// The request that stores the documents of `payload` in the index `index_id`.
pub open spec fn ingest_request(index_id: Seq<char>, payload: Seq<char>) -> Seq<DocBatchView> {
    seq![
        DocBatchView {
            index_id,
            docs: documents(payload).map_values(|document: Seq<char>| encode_utf8(document)),
        },
    ]
}

/// The documents of a payload, in order.
pub fn lines<'a>(body: &'a str) -> (res: Vec<&'a str>)
    ensures
        slice_texts(res@) == documents(body@),
{
    let all_lines = text_lines(body);
    let mut res: Vec<&'a str> = Vec::new();
    let ghost all = slice_texts(all_lines@);
    for i in 0..all_lines.len()
        invariant
            all == slice_texts(all_lines@),
            slice_texts(res@) == documents_of_lines(all.take(i as int)),
    {
        let line_trimmed = trim(all_lines[i]);
        proof {
            lemma_documents_push(all.take(i as int), all[i as int]);
            assert(all.take(i + 1) == all.take(i as int).push(all[i as int]));
        }
        if !line_trimmed.is_empty() {
            let ghost before = res@;
            res.push(line_trimmed);
            assert(slice_texts(res@) == slice_texts(before).push(line_trimmed@));
        }
    }
    assert(all.take(all.len() as int) == all);
    res
}

/// Builds the request that stores the documents of `payload` in one index.
pub fn push_api(index_id: String, payload: &str) -> (res: IngestRequest)
    ensures
        res@ == ingest_request(index_id@, payload@),
        res.doc_batches@.len() == 1,
        res.doc_batches@[0].index_id@ == index_id@,
        res.doc_batches@[0].docs@.len() == documents(payload@).len(),
        forall|i: int|
            0 <= i < documents(payload@).len() ==> #[trigger] res.doc_batches@[0].docs@[i]@
                == encode_utf8(documents(payload@)[i]),
{
    let documents_found = lines(payload);
    let mut docs: Vec<Vec<u8>> = Vec::new();
    for i in 0..documents_found.len()
        invariant
            docs@.len() == i,
            forall|k: int|
                0 <= k < i ==> #[trigger] docs@[k]@ == encode_utf8(documents_found@[k]@),
    {
        docs.push(documents_found[i].as_bytes_vec());
    }
    let ghost index = index_id@;
    let doc_batch = DocBatch { index_id, docs };
    let mut doc_batches: Vec<DocBatch> = Vec::new();
    doc_batches.push(doc_batch);
    let res = IngestRequest { doc_batches };
    proof {
        let expected = ingest_request(index, payload@);
        assert forall|k: int| 0 <= k < docs@.len() implies doc_batch@.docs[k]
            == expected[0].docs[k] by {
            assert(slice_texts(documents_found@)[k] == documents_found@[k]@);
        }
        assert(doc_batch@.docs =~= expected[0].docs);
        assert(res@ =~= expected);
    }
    res
}

/// Reads the body of a request as text.
pub fn push_api_filter(body: &[u8]) -> (res: Result<String, PushApiRejection>)
    ensures
        (match res {
            Ok(payload) => valid_utf8(body@) && payload@ == decode_utf8(body@),
            Err(rejection) => !valid_utf8(body@) && rejection is InvalidUtf8,
        }),
{
    match decode(body) {
        Some(body_str) => Ok(body_str.to_string()),
        None => Err(PushApiRejection::InvalidUtf8),
    }
}

/// Decides what becomes of a request: the ingest service to call with the
/// request to make of it, or the reason why none is made. A body that is not
/// UTF-8 is reported before a missing service is.
pub fn push_api_handler<S>(index_id: String, body: &[u8], push_api_service: Option<S>) -> (res:
    Result<(S, IngestRequest), PushApiRejection>)
    ensures
        (match res {
            Ok((service, request)) => {
                &&& valid_utf8(body@)
                &&& push_api_service == Some(service)
                &&& request@ == ingest_request(index_id@, decode_utf8(body@))
            },
            Err(PushApiRejection::InvalidUtf8) => !valid_utf8(body@),
            Err(PushApiRejection::PushApiServiceUnavailable) => {
                valid_utf8(body@) && push_api_service is None
            },
        }),
{
    match push_api_filter(body) {
        Err(rejection) => Err(rejection),
        Ok(payload) => match push_api_service {
            None => Err(PushApiRejection::PushApiServiceUnavailable),
            Some(service) => Ok((service, push_api(index_id, payload.as_str()))),
        },
    }
}

/// Payloads put one after the other, with a line feed between them, hold the
/// documents of the first and then those of the second.
pub proof fn law_documents_of_concatenated_payloads(first: Seq<char>, second: Seq<char>)
    ensures
        documents(first + seq!['\n'] + second) == documents(first) + documents(second),
    decreases first.len(),
{
    let whole = first + seq!['\n'] + second;
    whole.index_of_first_ensures('\n');
    first.index_of_first_ensures('\n');
    assert(whole[first.len() as int] == '\n');
    let end = whole.index_of_first('\n').unwrap();
    match first.index_of_first('\n') {
        Some(first_end) => {
            assert(whole[first_end] == '\n');
            assert(forall|j: int| 0 <= j < first.len() ==> whole[j] == first[j]);
            assert(end == first_end);
            let line = without_carriage_return(first.take(end));
            let rest = first.skip(end + 1);
            assert(whole.take(end) == first.take(end));
            assert(whole.skip(end + 1) == rest + seq!['\n'] + second);
            law_documents_of_concatenated_payloads(rest, second);
            lemma_documents_add(seq![line], split_lines(rest));
            lemma_documents_add(seq![line], split_lines(rest + seq!['\n'] + second));
            assert(documents(whole) == documents_of_lines(seq![line]) + (documents(rest)
                + documents(second)));
            assert(documents(first) == documents_of_lines(seq![line]) + documents(rest));
        },
        None => {
            assert(forall|j: int| 0 <= j < first.len() ==> whole[j] == first[j]);
            assert(forall|j: int| 0 <= j < first.len() ==> first.contains(#[trigger] first[j]));
            assert(end == first.len());
            assert(whole.take(end) == first);
            assert(whole.skip(end + 1) == second);
            let line = without_carriage_return(first);
            lemma_documents_add(seq![line], split_lines(second));
            lemma_documents_singleton(line);
            lemma_documents_singleton(first);
            if first.len() > 0 && first.last() == '\r' {
                lemma_trimmed_drop_last(first);
            }
            if first.len() == 0 {
                assert(split_lines(first) == Seq::<Seq<char>>::empty());
                lemma_no_documents();
            }
        },
    }
}

/// Every document holds a character, neither starts nor ends with white space,
/// spans no line feed, and is by itself a payload with that one document.
pub proof fn law_document_is_one_line(payload: Seq<char>, i: int)
    requires
        0 <= i < documents(payload).len(),
    ensures
        documents(payload)[i].len() > 0,
        !is_white_space(documents(payload)[i].first()),
        !is_white_space(documents(payload)[i].last()),
        !documents(payload)[i].contains('\n'),
        documents(documents(payload)[i]) == seq![documents(payload)[i]],
{
    let document = documents(payload)[i];
    let all = split_lines(payload).map_values(|line: Seq<char>| trimmed(line));
    let holds_text = |d: Seq<char>| d.len() > 0;
    assert(all.filter(holds_text) == documents(payload));
    assert(all.filter(holds_text).contains(document));
    all.lemma_filter_contains_rev(holds_text, document);
    all.lemma_filter_pred(holds_text, i);
    let k = choose|k: int| 0 <= k < all.len() && all[k] == document;
    lemma_line_has_no_line_feed(payload, k);
    lemma_trimmed_ends(split_lines(payload)[k]);
    document.index_of_first_ensures('\n');
    assert(split_lines(document) == seq![document]);
    lemma_documents_singleton(document);
}

/// A line with text on it is a document, whatever its length: the text without
/// the white space around it.
pub proof fn law_line_with_text_is_a_document(lead: Seq<char>, text: Seq<char>, trail: Seq<char>)
    requires
        text.len() > 0,
        !is_white_space(text.first()),
        !is_white_space(text.last()),
        forall|i: int| 0 <= i < lead.len() ==> is_white_space(#[trigger] lead[i]),
        forall|i: int| 0 <= i < trail.len() ==> is_white_space(#[trigger] trail[i]),
        !(lead + text + trail).contains('\n'),
    ensures
        documents(lead + text + trail) == seq![text],
{
    let line = lead + text + trail;
    line.index_of_first_ensures('\n');
    assert(split_lines(line) == seq![line]);
    lemma_documents_singleton(line);
    lemma_trimmed_keeps_text(lead, text, trail);
}

/// A payload of nothing but white space holds no document.
pub proof fn law_blank_payload_holds_no_document(payload: Seq<char>)
    requires
        forall|i: int| 0 <= i < payload.len() ==> is_white_space(#[trigger] payload[i]),
    ensures
        documents(payload) == Seq::<Seq<char>>::empty(),
    decreases payload.len(),
{
    payload.index_of_first_ensures('\n');
    match payload.index_of_first('\n') {
        Some(end) => {
            let line = without_carriage_return(payload.take(end));
            let rest = payload.skip(end + 1);
            assert forall|i: int| 0 <= i < line.len() implies is_white_space(#[trigger] line[i]) by {
                assert(line[i] == payload[i]);
            }
            assert forall|i: int| 0 <= i < rest.len() implies is_white_space(#[trigger] rest[i]) by {
                assert(rest[i] == payload[end + 1 + i]);
            }
            lemma_trimmed_blank(line);
            lemma_documents_singleton(line);
            law_blank_payload_holds_no_document(rest);
            lemma_documents_add(seq![line], split_lines(rest));
        },
        None => {
            lemma_no_documents();
            if payload.len() > 0 {
                assert(split_lines(payload) == seq![payload]);
                lemma_trimmed_blank(payload);
                lemma_documents_singleton(payload);
            } else {
                assert(split_lines(payload) == Seq::<Seq<char>>::empty());
            }
        },
    }
}

/// A request holds one batch, for the index it was made for, with every document
/// of the payload, in order: reading the bytes back gives the document.
pub proof fn law_request_holds_every_document(index_id: Seq<char>, payload: Seq<char>)
    ensures
        ingest_request(index_id, payload).len() == 1,
        ingest_request(index_id, payload)[0].index_id == index_id,
        ingest_request(index_id, payload)[0].docs.len() == documents(payload).len(),
        forall|i: int|
            0 <= i < documents(payload).len() ==> {
                &&& valid_utf8(#[trigger] ingest_request(index_id, payload)[0].docs[i])
                &&& decode_utf8(ingest_request(index_id, payload)[0].docs[i]) == documents(
                    payload,
                )[i]
            },
{
    let docs = ingest_request(index_id, payload)[0].docs;
    assert forall|i: int| 0 <= i < documents(payload).len() implies valid_utf8(#[trigger] docs[i])
        && decode_utf8(docs[i]) == documents(payload)[i] by {
        encode_utf8_valid_utf8(documents(payload)[i]);
        encode_utf8_decode_utf8(documents(payload)[i]);
    }
}

/// The request for two payloads, one after the other with a line feed between
/// them, holds the documents of the request for the first, and then those of the
/// request for the second.
pub proof fn law_request_of_concatenated_payloads(
    index_id: Seq<char>,
    first: Seq<char>,
    second: Seq<char>,
)
    ensures
        ingest_request(index_id, first + seq!['\n'] + second)[0].docs == ingest_request(
            index_id,
            first,
        )[0].docs + ingest_request(index_id, second)[0].docs,
{
    law_documents_of_concatenated_payloads(first, second);
    assert(ingest_request(index_id, first + seq!['\n'] + second)[0].docs =~= ingest_request(
        index_id,
        first,
    )[0].docs + ingest_request(index_id, second)[0].docs);
}

/// The request for a line with text on it holds the UTF-8 bytes of the text.
pub proof fn law_request_of_one_line(
    index_id: Seq<char>,
    lead: Seq<char>,
    text: Seq<char>,
    trail: Seq<char>,
)
    requires
        text.len() > 0,
        !is_white_space(text.first()),
        !is_white_space(text.last()),
        forall|i: int| 0 <= i < lead.len() ==> is_white_space(#[trigger] lead[i]),
        forall|i: int| 0 <= i < trail.len() ==> is_white_space(#[trigger] trail[i]),
        !(lead + text + trail).contains('\n'),
    ensures
        ingest_request(index_id, lead + text + trail)[0].docs == seq![encode_utf8(text)],
{
    law_line_with_text_is_a_document(lead, text, trail);
    assert(ingest_request(index_id, lead + text + trail)[0].docs =~= seq![encode_utf8(text)]);
}

/// The value of a request is the value of its parts: no batch, index or document
/// is left out of it.
pub proof fn law_request_view_is_whole(request: IngestRequest)
    ensures
        request@.len() == request.doc_batches@.len(),
        forall|b: int|
            #![trigger request@[b]]
            0 <= b < request.doc_batches@.len() ==> {
                let batch = request.doc_batches@[b];
                &&& request@[b].index_id == batch.index_id@
                &&& request@[b].docs.len() == batch.docs@.len()
                &&& forall|i: int|
                    0 <= i < batch.docs@.len() ==> #[trigger] request@[b].docs[i]
                        == batch.docs@[i]@
            },
{
}

/// The documents of a payload, put on lines of their own, are found again.
pub proof fn law_joined_documents_are_found_again(payload: Seq<char>)
    ensures
        documents(joined(documents(payload), seq!['\n'])) == documents(payload),
{
    assert forall|i: int| 0 <= i < documents(payload).len() implies documents(
        #[trigger] documents(payload)[i],
    ) == seq![documents(payload)[i]] by {
        law_document_is_one_line(payload, i);
    }
    lemma_documents_joined(documents(payload));
}

proof fn lemma_documents_joined(items: Seq<Seq<char>>)
    requires
        forall|i: int|
            0 <= i < items.len() ==> documents(#[trigger] items[i]) == seq![items[i]],
    ensures
        documents(joined(items, seq!['\n'])) == items,
    decreases items.len(),
{
    if items.len() == 0 {
        let none = Seq::<char>::empty();
        none.index_of_first_ensures('\n');
        assert(split_lines(none) == Seq::<Seq<char>>::empty());
        lemma_no_documents();
    } else if items.len() == 1 {
        assert(items == seq![items[0]]);
    } else {
        let rest = items.drop_last();
        assert forall|i: int| 0 <= i < rest.len() implies documents(#[trigger] rest[i])
            == seq![rest[i]] by {
            assert(rest[i] == items[i]);
        }
        lemma_documents_joined(rest);
        law_documents_of_concatenated_payloads(joined(rest, seq!['\n']), items.last());
        assert(items.last() == items[items.len() - 1]);
        assert(items == rest + seq![items.last()]);
    }
}

proof fn lemma_documents_push(lines: Seq<Seq<char>>, line: Seq<char>)
    ensures
        documents_of_lines(lines.push(line)) == if trimmed(line).len() > 0 {
            documents_of_lines(lines).push(trimmed(line))
        } else {
            documents_of_lines(lines)
        },
{
    let trim_line = |l: Seq<char>| trimmed(l);
    let all = lines.push(line).map_values(trim_line);
    assert(all.drop_last() == lines.map_values(trim_line));
    reveal(Seq::filter);
}

proof fn lemma_no_documents()
    ensures
        documents_of_lines(Seq::empty()) == Seq::<Seq<char>>::empty(),
{
    reveal(Seq::filter);
}

proof fn lemma_documents_singleton(line: Seq<char>)
    ensures
        documents_of_lines(seq![line]) == if trimmed(line).len() > 0 {
            seq![trimmed(line)]
        } else {
            Seq::empty()
        },
{
    lemma_no_documents();
    lemma_documents_push(Seq::empty(), line);
    assert(seq![line] == Seq::empty().push(line));
}

proof fn lemma_documents_add(a: Seq<Seq<char>>, b: Seq<Seq<char>>)
    ensures
        documents_of_lines(a + b) == documents_of_lines(a) + documents_of_lines(b),
{
    let trim_line = |line: Seq<char>| trimmed(line);
    assert((a + b).map_values(trim_line) == a.map_values(trim_line) + b.map_values(trim_line));
    Seq::filter_distributes_over_add(
        a.map_values(trim_line),
        b.map_values(trim_line),
        |document: Seq<char>| document.len() > 0,
    );
}

proof fn lemma_trimmed_keeps_text(lead: Seq<char>, text: Seq<char>, trail: Seq<char>)
    requires
        text.len() > 0,
        !is_white_space(text.first()),
        !is_white_space(text.last()),
        forall|i: int| 0 <= i < lead.len() ==> is_white_space(#[trigger] lead[i]),
        forall|i: int| 0 <= i < trail.len() ==> is_white_space(#[trigger] trail[i]),
    ensures
        trimmed(lead + text + trail) == text,
    decreases lead.len() + trail.len(),
{
    let line = lead + text + trail;
    if lead.len() > 0 {
        assert(line.first() == lead[0]);
        assert(line.drop_first() == lead.drop_first() + text + trail);
        assert forall|i: int| 0 <= i < lead.drop_first().len() implies is_white_space(
            #[trigger] lead.drop_first()[i],
        ) by {
            assert(lead.drop_first()[i] == lead[i + 1]);
        }
        lemma_trimmed_keeps_text(lead.drop_first(), text, trail);
    } else if trail.len() > 0 {
        assert(line.first() == text.first());
        assert(line.last() == trail[trail.len() - 1]);
        assert(line.drop_last() == lead + text + trail.drop_last());
        assert forall|i: int| 0 <= i < trail.drop_last().len() implies is_white_space(
            #[trigger] trail.drop_last()[i],
        ) by {
            assert(trail.drop_last()[i] == trail[i]);
        }
        lemma_trimmed_keeps_text(lead, text, trail.drop_last());
    } else {
        assert(line == text);
    }
}

proof fn lemma_trimmed_blank(text: Seq<char>)
    requires
        forall|i: int| 0 <= i < text.len() ==> is_white_space(#[trigger] text[i]),
    ensures
        trimmed(text).len() == 0,
    decreases text.len(),
{
    if text.len() > 0 {
        assert(is_white_space(text[0]));
        assert forall|i: int| 0 <= i < text.drop_first().len() implies is_white_space(
            #[trigger] text.drop_first()[i],
        ) by {
            assert(text.drop_first()[i] == text[i + 1]);
        }
        lemma_trimmed_blank(text.drop_first());
    }
}

proof fn lemma_trimmed_drop_last(text: Seq<char>)
    requires
        text.len() > 0,
        is_white_space(text.last()),
    ensures
        trimmed(text) == trimmed(text.drop_last()),
    decreases text.len(),
{
    if is_white_space(text.first()) {
        if text.len() > 1 {
            lemma_trimmed_drop_last(text.drop_first());
            assert(text.drop_first().drop_last() == text.drop_last().drop_first());
        } else {
            assert(text.drop_first() == text.drop_last());
        }
    }
}

proof fn lemma_trimmed_ends(text: Seq<char>)
    ensures
        trimmed(text).len() > 0 ==> {
            &&& !is_white_space(trimmed(text).first())
            &&& !is_white_space(trimmed(text).last())
        },
        trimmed(trimmed(text)) == trimmed(text),
        forall|c: char| trimmed(text).contains(c) ==> text.contains(c),
    decreases text.len(),
{
    if text.len() > 0 {
        if is_white_space(text.first()) {
            lemma_trimmed_ends(text.drop_first());
            lemma_contains_after_drop(text);
        } else if is_white_space(text.last()) {
            lemma_trimmed_ends(text.drop_last());
            lemma_contains_after_drop(text);
        }
    }
}

proof fn lemma_contains_after_drop(text: Seq<char>)
    requires
        text.len() > 0,
    ensures
        forall|c: char| text.drop_first().contains(c) ==> text.contains(c),
        forall|c: char| text.drop_last().contains(c) ==> text.contains(c),
{
    assert forall|c: char| text.drop_first().contains(c) implies text.contains(c) by {
        let k = choose|k: int| 0 <= k < text.len() - 1 && text.drop_first()[k] == c;
        assert(text[k + 1] == c);
    }
    assert forall|c: char| text.drop_last().contains(c) implies text.contains(c) by {
        let k = choose|k: int| 0 <= k < text.len() - 1 && text.drop_last()[k] == c;
        assert(text[k] == c);
    }
}

proof fn lemma_line_has_no_line_feed(text: Seq<char>, k: int)
    requires
        0 <= k < split_lines(text).len(),
    ensures
        !split_lines(text)[k].contains('\n'),
    decreases text.len(),
{
    text.index_of_first_ensures('\n');
    if let Some(end) = text.index_of_first('\n') {
        if k > 0 {
            lemma_line_has_no_line_feed(text.skip(end + 1), k - 1);
        }
    }
}

} // verus!
