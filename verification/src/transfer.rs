//! The data-channel protocol shared by both ends of a transfer.
//!
//! The sending end announces the image name (`FILE_NAME:<name>`) and the byte
//! count (`FILE_SIZE:<n>`), sends the image in binary chunks of at most
//! `CHUNK_SIZE` bytes, then `END_OF_TRANSFER`. The receiving end acknowledges
//! with a text that starts with `END_OF_TRANSFER`.
use vstd::prelude::*;
use crate::text::{
    all_digits, decimal_text, find_from, first_field, lemma_decimal_text,
    lemma_parse_decimal_text, second_field, starts_with,
};
use crate::webrtc_control::{
    binary_step, fresh_view, lemma_binary_message_is_kept, text_step, ReceiveOutcome, ReceiveView,
};

verus! {

/// Largest binary chunk that the sending end puts on the data channel.
pub const CHUNK_SIZE: usize = 16 * 1024;

/// Amount buffered on the data channel above which the sending end waits.
pub const MAX_BUFFERED_AMOUNT: usize = 1024 * 1024;

/// Buffered amount below which the data channel signals that more can be sent.
pub const BUFFERED_AMOUNT_LOW_THRESHOLD: usize = 512 * 1024;

/// A message on the data channel.
#[derive(Debug)]
pub enum DataMessage {
    Text(String),
    Binary(Vec<u8>),
}

/// The content of a data-channel message.
pub enum DataEvent {
    Text(Seq<char>),
    Binary(Seq<u8>),
}

impl View for DataMessage {
    type V = DataEvent;

    open spec fn view(&self) -> DataEvent {
        match self {
            DataMessage::Text(t) => DataEvent::Text(t@),
            DataMessage::Binary(b) => DataEvent::Binary(b@),
        }
    }
}

/// The contents of a sequence of messages.
pub open spec fn events_of(msgs: Seq<DataMessage>) -> Seq<DataEvent> {
    msgs.map_values(|m: DataMessage| m@)
}

/// The bytes of all chunks, in order.
pub open spec fn concat_all(chunks: Seq<Seq<u8>>) -> Seq<u8>
    decreases chunks.len(),
{
    if chunks.len() == 0 {
        Seq::empty()
    } else {
        concat_all(chunks.drop_last()) + chunks.last()
    }
}

/// `content` cut into consecutive pieces of `size` bytes, the last one possibly
/// shorter (`<[u8]>::chunks`).
pub open spec fn chunks_of(content: Seq<u8>, size: nat) -> Seq<Seq<u8>>
    decreases content.len(),
{
    if size == 0 || content.len() == 0 {
        Seq::empty()
    } else if content.len() <= size {
        seq![content]
    } else {
        seq![content.take(size as int)] + chunks_of(content.skip(size as int), size)
    }
}

/// Binary messages carrying `chunks`, in order.
pub open spec fn binary_events(chunks: Seq<Seq<u8>>) -> Seq<DataEvent> {
    chunks.map_values(|c: Seq<u8>| DataEvent::Binary(c))
}

/// The announcement of the image name.
pub open spec fn name_text(name: Seq<char>) -> Seq<char> {
    "FILE_NAME:"@ + name
}

/// The announcement of the byte count.
pub open spec fn size_text(len: nat) -> Seq<char> {
    "FILE_SIZE:"@ + crate::text::decimal_text(len)
}

/// Every message that the sending end puts on the data channel for an image
/// called `name` whose bytes are `content`, in order.
pub open spec fn transfer_events(name: Seq<char>, content: Seq<u8>) -> Seq<DataEvent> {
    seq![DataEvent::Text(name_text(name)), DataEvent::Text(size_text(content.len()))]
        + binary_events(chunks_of(content, CHUNK_SIZE as nat))
        + seq![DataEvent::Text("END_OF_TRANSFER"@)]
}

// ---------------------------------------------------------------------------
// Lemmas
// ---------------------------------------------------------------------------

/// Concatenating two runs of chunks concatenates their bytes.
pub proof fn lemma_concat_all_append(a: Seq<Seq<u8>>, b: Seq<Seq<u8>>)
    ensures
        concat_all(a + b) == concat_all(a) + concat_all(b),
    decreases b.len(),
{
    if b.len() == 0 {
        assert(a + b =~= a);
        assert(concat_all(a) + concat_all(b) =~= concat_all(a));
    } else {
        assert((a + b).drop_last() =~= a + b.drop_last());
        lemma_concat_all_append(a, b.drop_last());
        assert(concat_all(a + b) == concat_all(a + b.drop_last()) + b.last());
        assert(concat_all(a) + concat_all(b) =~= concat_all(a) + concat_all(b.drop_last())
            + b.last());
    }
}

/// Concatenating one more chunk appends its bytes.
pub proof fn lemma_concat_all_push(a: Seq<Seq<u8>>, c: Seq<u8>)
    ensures
        concat_all(a.push(c)) == concat_all(a) + c,
{
    assert(a.push(c).drop_last() =~= a);
}

/// The chunks of `content` put back together are `content`; each is non-empty
/// and at most `size` bytes long.
pub proof fn lemma_chunks_of(content: Seq<u8>, size: nat)
    requires
        size > 0,
    ensures
        concat_all(chunks_of(content, size)) == content,
        forall|i: int|
            0 <= i < chunks_of(content, size).len() ==> 0 < (#[trigger] chunks_of(
                content,
                size,
            )[i]).len() <= size,
    decreases content.len(),
{
    if content.len() == 0 {
        assert(concat_all(Seq::<Seq<u8>>::empty()) =~= content);
    } else if content.len() <= size {
        lemma_concat_all_push(Seq::<Seq<u8>>::empty(), content);
        assert(Seq::<Seq<u8>>::empty().push(content) =~= seq![content]);
        assert(concat_all(Seq::<Seq<u8>>::empty()) + content =~= content);
    } else {
        let head = content.take(size as int);
        let rest = content.skip(size as int);
        lemma_chunks_of(rest, size);
        lemma_concat_all_append(seq![head], chunks_of(rest, size));
        lemma_concat_all_push(Seq::<Seq<u8>>::empty(), head);
        assert(Seq::<Seq<u8>>::empty().push(head) =~= seq![head]);
        assert(concat_all(Seq::<Seq<u8>>::empty()) + head =~= head);
        assert(head + rest =~= content);
        let cs = chunks_of(content, size);
        assert forall|i: int| 0 <= i < cs.len() implies 0 < (#[trigger] cs[i]).len() <= size by {
            if i > 0 {
                assert(cs[i] == chunks_of(rest, size)[i - 1]);
            }
        }
    }
}


// ---------------------------------------------------------------------------
// The receiving end fed with a whole transfer
// ---------------------------------------------------------------------------

/// How the receiving end answers one message, with no progress update due.
pub open spec fn event_step(v: ReceiveView, e: DataEvent) -> (ReceiveView, ReceiveOutcome) {
    match e {
        DataEvent::Text(t) => text_step(v, t),
        DataEvent::Binary(d) => binary_step(v, d, false),
    }
}

/// The state of the receiving end after the messages `es`, from state `v`.
pub open spec fn run(v: ReceiveView, es: Seq<DataEvent>) -> ReceiveView
    decreases es.len(),
{
    if es.len() == 0 {
        v
    } else {
        run(event_step(v, es[0]).0, es.drop_first())
    }
}

/// The text that acknowledges a completed transfer.
pub open spec fn ack_text() -> Seq<char> {
    "END_OF_TRANSFER | "@
}

/// Running two batches of messages one after the other.
pub proof fn lemma_run_append(v: ReceiveView, a: Seq<DataEvent>, b: Seq<DataEvent>)
    ensures
        run(v, a + b) == run(run(v, a), b),
    decreases a.len(),
{
    if a.len() == 0 {
        assert(a + b =~= b);
    } else {
        assert((a + b).drop_first() =~= a.drop_first() + b);
        lemma_run_append(event_step(v, a[0]).0, a.drop_first(), b);
    }
}

/// Binary messages are kept in order and change nothing else that was announced.
pub proof fn lemma_run_binary(v: ReceiveView, cs: Seq<Seq<u8>>)
    ensures
        run(v, binary_events(cs)).chunks == v.chunks + cs,
        run(v, binary_events(cs)).name == v.name,
        run(v, binary_events(cs)).expected == v.expected,
    decreases cs.len(),
{
    if cs.len() == 0 {
        assert(v.chunks + cs =~= v.chunks);
    } else {
        let next = event_step(v, DataEvent::Binary(cs[0])).0;
        assert(binary_events(cs)[0] == DataEvent::Binary(cs[0]));
        assert(binary_events(cs).drop_first() =~= binary_events(cs.drop_first()));
        lemma_run_binary(next, cs.drop_first());
        assert(next.chunks + cs.drop_first() =~= v.chunks + cs);
    }
}

/// The first `c` at or after `i` is at `k` when `s[k]` is `c` and nothing
/// between is.
pub proof fn lemma_find_from_at(s: Seq<char>, c: char, i: int, k: int)
    requires
        0 <= i <= k < s.len(),
        s[k] == c,
        forall|j: int| i <= j < k ==> s[j] != c,
    ensures
        find_from(s, c, i) == k,
    decreases k - i,
{
    if i < k {
        lemma_find_from_at(s, c, i + 1, k);
    }
}

/// Searching past a prefix `p` searches the rest.
pub proof fn lemma_find_from_shift(p: Seq<char>, n: Seq<char>, c: char, i: int)
    requires
        0 <= i <= n.len(),
    ensures
        find_from(p + n, c, p.len() + i) == p.len() + find_from(n, c, i),
    decreases n.len() - i,
{
    if i < n.len() {
        assert((p + n)[p.len() + i] == n[i]);
        if n[i] != c {
            lemma_find_from_shift(p, n, c, i + 1);
        }
    }
}

/// Decimal digits hold no `:`.
pub proof fn lemma_no_colon_in_digits(d: Seq<char>, i: int)
    requires
        all_digits(d),
        0 <= i <= d.len(),
    ensures
        find_from(d, ':', i) == d.len(),
    decreases d.len() - i,
{
    if i < d.len() {
        assert(crate::text::is_digit(d[i]));
        lemma_no_colon_in_digits(d, i + 1);
    }
}

/// The second `:`-field of `tag + rest`, where `tag` ends with its only `:`,
/// is the first `:`-field of `rest`.
pub proof fn lemma_field_after_tag(tag: Seq<char>, rest: Seq<char>)
    requires
        tag.len() > 0,
        tag.last() == ':',
        forall|j: int| 0 <= j < tag.len() - 1 ==> tag[j] != ':',
    ensures
        second_field(tag + rest, ':') == Some(first_field(rest, ':')),
{
    let s = tag + rest;
    let k = tag.len() - 1;
    assert(s[k] == ':');
    lemma_find_from_at(s, ':', 0, k);
    lemma_find_from_shift(tag, rest, ':', 0);
    crate::text::lemma_find_from_bounds(rest, ':', 0);
    assert(s.subrange(k + 1, tag.len() + find_from(rest, ':', 0)) =~= rest.subrange(
        0,
        find_from(rest, ':', 0),
    ));
}

/// A transfer delivers the image intact: fed every message that the sending end
/// puts on the data channel for an image `name` with bytes `content`, in the
/// order they were sent, the receiving end completes with exactly `content` and
/// no size mismatch, having recorded the announced size and the name up to its
/// first `:`. The data channel is opened as an ordered channel
/// (`webrtc_control::DATA_CHANNEL_ORDERED`), which delivers the messages in that
/// order.
pub proof fn lemma_transfer_round_trip(name: Seq<char>, content: Seq<u8>)
    requires
        content.len() <= usize::MAX,
    ensures
        ({
            let es = transfer_events(name, content);
            let before_end = run(fresh_view(), es.drop_last());
            &&& before_end.name == Some(first_field(name, ':'))
            &&& before_end.expected == Some(content.len() as usize)
            &&& concat_all(before_end.chunks) == content
            &&& event_step(before_end, es.last()).1 == ReceiveOutcome::Complete {
                data: content,
                mismatch: None,
            }
        }),
{
    reveal_strlit("FILE_NAME:");
    reveal_strlit("FILE_SIZE:");
    reveal_strlit("END_OF_TRANSFER");
    let es = transfer_events(name, content);
    let chunks = chunks_of(content, CHUNK_SIZE as nat);
    let n_text = name_text(name);
    let s_text = size_text(content.len());
    let digits = decimal_text(content.len());
    let v0 = fresh_view();

    // the name
    assert(starts_with(n_text, "FILE_NAME:"@)) by {
        assert(n_text.subrange(0, 10) =~= "FILE_NAME:"@);
    }
    lemma_field_after_tag("FILE_NAME:"@, name);
    let v1 = text_step(v0, n_text).0;
    assert(v1.name == Some(first_field(name, ':')));

    // the size
    assert(!starts_with(s_text, "FILE_NAME:"@)) by {
        assert(s_text.subrange(0, 10)[5] != "FILE_NAME:"@[5]);
    }
    assert(starts_with(s_text, "FILE_SIZE:"@)) by {
        assert(s_text.subrange(0, 10) =~= "FILE_SIZE:"@);
    }
    lemma_field_after_tag("FILE_SIZE:"@, digits);
    lemma_decimal_text(content.len());
    lemma_no_colon_in_digits(digits, 0);
    assert(first_field(digits, ':') =~= digits);
    lemma_parse_decimal_text(content.len() as usize);
    let v2 = text_step(v1, s_text).0;
    assert(v2.expected == Some(content.len() as usize));
    assert(v2.name == v1.name);
    assert(v2.chunks == v0.chunks);

    // the chunks
    let head = seq![DataEvent::Text(n_text), DataEvent::Text(s_text)];
    assert(es.drop_last() =~= head + binary_events(chunks));
    lemma_run_append(v0, head, binary_events(chunks));
    assert(run(v0, head) == v2) by {
        let tail = head.drop_first();
        assert(head[0] == DataEvent::Text(n_text));
        assert(event_step(v0, head[0]).0 == v1);
        assert(run(v0, head) == run(v1, tail));
        assert(tail[0] == DataEvent::Text(s_text));
        assert(tail.drop_first() =~= Seq::<DataEvent>::empty());
        assert(event_step(v1, tail[0]).0 == v2);
        assert(run(v1, tail) == run(v2, tail.drop_first()));
        assert(run(v2, tail.drop_first()) == v2);
    }
    lemma_run_binary(v2, chunks);
    let v3 = run(v2, binary_events(chunks));
    assert(v2.chunks =~= Seq::<Seq<u8>>::empty());
    assert(v3.chunks =~= chunks);
    lemma_chunks_of(content, CHUNK_SIZE as nat);

    // the end
    let end = "END_OF_TRANSFER"@;
    assert(es.last() == DataEvent::Text(end));
    assert(!starts_with(end, "FILE_NAME:"@)) by {
        assert(end.subrange(0, 10)[0] != "FILE_NAME:"@[0]);
    }
    assert(!starts_with(end, "FILE_SIZE:"@)) by {
        assert(end.subrange(0, 10)[0] != "FILE_SIZE:"@[0]);
    }
}

/// The acknowledgement that the receiving end sends back is recognised by the
/// sending end as the end of the transfer.
pub proof fn lemma_ack_recognised()
    ensures
        starts_with(ack_text(), "END_OF_TRANSFER"@),
{
    reveal_strlit("END_OF_TRANSFER | ");
    reveal_strlit("END_OF_TRANSFER");
    assert(ack_text().subrange(0, 15) =~= "END_OF_TRANSFER"@);
}

/// Bytes of a run of non-empty chunks: there are some exactly when there is a
/// chunk.
pub proof fn lemma_concat_all_nonempty(cs: Seq<Seq<u8>>)
    requires
        forall|i: int| 0 <= i < cs.len() ==> (#[trigger] cs[i]).len() > 0,
    ensures
        (concat_all(cs).len() > 0) == (cs.len() > 0),
{
    if cs.len() > 0 {
        assert(cs.last() == cs[cs.len() - 1]);
    }
}

/// The sending end counts the bytes of the chunks sent so far; its progress bar
/// reaches the total with the last chunk, and not before.
pub proof fn lemma_progress_finishes_with_last_chunk(content: Seq<u8>, i: int)
    requires
        0 <= i < chunks_of(content, CHUNK_SIZE as nat).len(),
    ensures
        ({
            let cs = chunks_of(content, CHUNK_SIZE as nat);
            &&& concat_all(cs.take(i + 1)).len() <= content.len()
            &&& (concat_all(cs.take(i + 1)).len() == content.len()) == (i == cs.len() - 1)
        }),
{
    let cs = chunks_of(content, CHUNK_SIZE as nat);
    lemma_chunks_of(content, CHUNK_SIZE as nat);
    assert(cs.take(i + 1) + cs.skip(i + 1) =~= cs);
    lemma_concat_all_append(cs.take(i + 1), cs.skip(i + 1));
    assert forall|j: int| 0 <= j < cs.skip(i + 1).len() implies (#[trigger] cs.skip(i + 1)[j]).len()
        > 0 by {
        assert(cs.skip(i + 1)[j] == cs[i + 1 + j]);
    }
    lemma_concat_all_nonempty(cs.skip(i + 1));
}

/// How the receiving end answers one message when `due` tells whether a
/// progress update is due for it.
pub open spec fn event_step_with(v: ReceiveView, e: DataEvent, due: bool) -> (
    ReceiveView,
    ReceiveOutcome,
) {
    match e {
        DataEvent::Text(t) => text_step(v, t),
        DataEvent::Binary(d) => binary_step(v, d, due),
    }
}

/// The state of the receiving end after the messages `es`, from state `v`, when
/// `dues[i]` tells whether a progress update is due at message `i`.
pub open spec fn run_with(v: ReceiveView, es: Seq<DataEvent>, dues: Seq<bool>) -> ReceiveView
    decreases es.len(),
{
    if es.len() == 0 {
        v
    } else {
        run_with(event_step_with(v, es[0], dues[0]).0, es.drop_first(), dues.drop_first())
    }
}

/// Progress updates never change what the receiving end keeps: whichever
/// messages have an update due, it ends in the same state.
pub proof fn lemma_updates_keep_state(v: ReceiveView, es: Seq<DataEvent>, dues: Seq<bool>)
    ensures
        run_with(v, es, dues) == run(v, es),
    decreases es.len(),
{
    if es.len() > 0 {
        match es[0] {
            DataEvent::Binary(d) => {
                lemma_binary_message_is_kept(v, d, dues[0]);
                lemma_binary_message_is_kept(v, d, false);
            },
            DataEvent::Text(_) => {},
        }
        lemma_updates_keep_state(event_step(v, es[0]).0, es.drop_first(), dues.drop_first());
    }
}

/// A transfer delivers the image intact whenever progress updates are due: for
/// every choice of the binary messages at which an update is due (after the
/// first 100 ms every one is), the receiving end, fed the sender's messages in
/// the order sent, keeps every chunk and completes with exactly `content` and
/// no size mismatch.
pub proof fn lemma_transfer_round_trip_with_updates(
    name: Seq<char>,
    content: Seq<u8>,
    dues: Seq<bool>,
)
    requires
        content.len() <= usize::MAX,
    ensures
        ({
            let es = transfer_events(name, content);
            let before_end = run_with(fresh_view(), es.drop_last(), dues);
            &&& before_end.name == Some(first_field(name, ':'))
            &&& before_end.expected == Some(content.len() as usize)
            &&& before_end.chunks == chunks_of(content, CHUNK_SIZE as nat)
            &&& concat_all(before_end.chunks) == content
            &&& event_step_with(before_end, es.last(), true).1 == ReceiveOutcome::Complete {
                data: content,
                mismatch: None,
            }
        }),
{
    let es = transfer_events(name, content);
    lemma_transfer_round_trip(name, content);
    lemma_updates_keep_state(fresh_view(), es.drop_last(), dues);
    let chunks = chunks_of(content, CHUNK_SIZE as nat);
    let head = seq![DataEvent::Text(name_text(name)), DataEvent::Text(size_text(content.len()))];
    assert(es.drop_last() =~= head + binary_events(chunks));
    lemma_run_append(fresh_view(), head, binary_events(chunks));
    lemma_run_binary(run(fresh_view(), head), chunks);
    assert(run(fresh_view(), head).chunks =~= Seq::<Seq<u8>>::empty()) by {
        reveal_strlit("FILE_NAME:");
        reveal_strlit("FILE_SIZE:");
        let tail = head.drop_first();
        assert(head[0] == DataEvent::Text(name_text(name)));
        assert(tail[0] == DataEvent::Text(size_text(content.len())));
        assert(tail.drop_first() =~= Seq::<DataEvent>::empty());
        let v1 = event_step(fresh_view(), head[0]).0;
        let v2 = event_step(v1, tail[0]).0;
        assert(v1.chunks == fresh_view().chunks);
        assert(v2.chunks == v1.chunks);
        assert(run(fresh_view(), head) == run(v1, tail));
        assert(run(v1, tail) == run(v2, tail.drop_first()));
        assert(run(v2, tail.drop_first()) == v2);
    }
    assert(Seq::<Seq<u8>>::empty() + chunks =~= chunks);
    assert(es.last() == DataEvent::Text("END_OF_TRANSFER"@));
}

} // verus!
