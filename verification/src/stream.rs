//! Reading the events of a streamed response as its bytes pass through.
use actix_web::web::BytesMut;
use sse_core::{SseDecoder, SseEvent};
use vstd::prelude::*;

verus! {

/// `bytes::BytesMut`, under the name by which `actix_web` exports it.
#[verifier::external_type_specification]
#[verifier::external_body]
pub struct ExBytesMut(actix_web::web::BytesMut);

/// `sse_core::SseDecoder`, the parser of server-sent events.
#[verifier::external_type_specification]
#[verifier::external_body]
pub struct ExSseDecoder(sse_core::SseDecoder);

/// The bytes that `buffer` holds.
pub uninterp spec fn buffered(buffer: BytesMut) -> Seq<u8>;

/// What `decoder` has been fed since [`SseDecoder::new`] made it. A new decoder is the same
/// every time, no other method than `next` that changes it is called here, and `next` goes
/// through the bytes one by one, so this settles how it answers the next call.
pub uninterp spec fn fed(decoder: SseDecoder) -> Fed;

/// What `SseDecoder::next` answers to a buffer that holds `bytes`, and how many of those
/// bytes it takes, when the decoder was made by `SseDecoder::new` and has given one answer
/// to each of `answered` since.
pub uninterp spec fn decoded(answered: Seq<Seq<u8>>, bytes: Seq<u8>) -> (Option<ItemView>, nat);

/// `BytesMut::new` makes an empty buffer.
pub assume_specification[ BytesMut::new ]() -> (buffer: BytesMut)
    ensures
        buffered(buffer) == Seq::<u8>::empty(),
;

/// `SseDecoder::new` makes a decoder that has been fed nothing.
pub assume_specification[ SseDecoder::new ]() -> (decoder: SseDecoder)
    ensures
        fed(decoder) == (Fed { answered: Seq::empty(), open: Seq::empty() }),
;

/// `BytesMut::extend` appends the bytes it is given to those that the buffer holds. As for
/// every collection that grows, running out of memory is left aside.
#[verifier::external_body]
fn extend(buffer: &mut BytesMut, data: &[u8])
    ensures
        buffered(*final(buffer)) == buffered(*old(buffer)) + data@,
{
    buffer.extend(data);
}

/// `SseDecoder::next` takes bytes off the front of the buffer until they complete an
/// item or run out. Bytes that ran out are not lost: the answer is the one that these and
/// the bytes of the buffer would get in one call, and so is what the decoder has been fed
/// afterwards. Without an answer the buffer is left empty, and an empty buffer gives no
/// answer. A message or a reconnect time takes at least one byte of the buffer, and depends
/// on nothing behind the bytes that it takes. An event that outgrows the limit may take
/// none of the buffer. Of a message the data is kept; its event name and its id are dropped.
/// What the answer to given bytes is, is not said.
#[verifier::external_body]
fn next(decoder: &mut SseDecoder, buffer: &mut BytesMut) -> (item: Option<Item>)
    ensures
        view_of(item) == decoded(
            fed(*old(decoder)).answered,
            fed(*old(decoder)).open + buffered(*old(buffer)),
        ).0,
        buffered(*final(buffer)) == fed(*old(decoder)).left_of(buffered(*old(buffer))),
        fed(*final(decoder)) == fed(*old(decoder)).with(buffered(*old(buffer))),
        item is Some ==> fed(*old(decoder)).taken(buffered(*old(buffer))) <= fed(
            *old(decoder),
        ).input(buffered(*old(buffer))).len(),
        buffered(*old(buffer)).len() == 0 ==> item is None,
        item is Some && !(item->0 is TooLarge) ==> fed(*old(decoder)).settles(
            buffered(*old(buffer)),
        ),
{
    match decoder.next(buffer) {
        None => None,
        Some(Ok(SseEvent::Message(message))) => Some(Item::Message(message.data)),
        Some(Ok(SseEvent::Retry(millis))) => Some(Item::Retry(millis)),
        Some(Err(_)) => Some(Item::TooLarge),
    }
}

/// What a decoder has been fed. Into how many pieces the bytes were cut is not part of it.
pub struct Fed {
    /// For each answer so far, oldest first, the bytes that were behind the one before it: up
    /// to and with the last that it took, or, if an event outgrew the limit, all there were.
    pub answered: Seq<Seq<u8>>,
    /// The bytes that have been taken since without completing an item.
    pub open: Seq<u8>,
}

impl Fed {
    /// All bytes that the answer to a buffer of `bytes` goes by.
    pub open spec fn input(self, bytes: Seq<u8>) -> Seq<u8> {
        self.open + bytes
    }

    /// The answer to a buffer of `bytes`.
    pub open spec fn answer(self, bytes: Seq<u8>) -> Option<ItemView> {
        decoded(self.answered, self.input(bytes)).0
    }

    /// How many bytes of its input the answer to a buffer of `bytes` takes.
    pub open spec fn taken(self, bytes: Seq<u8>) -> nat {
        decoded(self.answered, self.input(bytes)).1
    }

    /// What is left of `bytes` after the answer to them. Bytes that were taken before are not
    /// put back.
    pub open spec fn left_of(self, bytes: Seq<u8>) -> Seq<u8> {
        if self.answer(bytes) is None {
            Seq::empty()
        } else if self.taken(bytes) <= self.open.len() {
            bytes
        } else {
            bytes.skip(self.taken(bytes) - self.open.len())
        }
    }

    /// What the decoder has been fed after the answer to `bytes`.
    pub open spec fn with(self, bytes: Seq<u8>) -> Fed {
        match self.answer(bytes) {
            None => Fed { answered: self.answered, open: self.input(bytes) },
            Some(ItemView::TooLarge) => Fed {
                answered: self.answered.push(self.input(bytes)),
                open: Seq::empty(),
            },
            Some(_) => Fed {
                answered: self.answered.push(self.input(bytes).take(self.taken(bytes) as int)),
                open: Seq::empty(),
            },
        }
    }

    /// The answer to `bytes` takes at least one of them, and is the same whatever comes
    /// behind the bytes that it takes.
    pub open spec fn settles(self, bytes: Seq<u8>) -> bool {
        let input = self.input(bytes);
        let taken = self.taken(bytes);
        &&& self.open.len() < taken <= input.len()
        &&& forall|more: Seq<u8>| #[trigger]
            decoded(self.answered, input.take(taken as int) + more) == decoded(self.answered, input)
    }
}

/// One item of an event stream.
pub enum Item {
    /// A message, with its data.
    Message(String),
    /// A wish of the server to change the time before a reconnect, in milliseconds.
    Retry(u32),
    /// An event that was dropped because it outgrew the decoder's limit.
    TooLarge,
}

/// What an [`Item`] says.
pub enum ItemView {
    Message(Seq<char>),
    Retry(u32),
    TooLarge,
}

impl View for Item {
    type V = ItemView;

    open spec fn view(&self) -> ItemView {
        match self {
            Item::Message(data) => ItemView::Message(data@),
            Item::Retry(millis) => ItemView::Retry(*millis),
            Item::TooLarge => ItemView::TooLarge,
        }
    }
}

/// What an answer of the decoder says.
pub open spec fn view_of(item: Option<Item>) -> Option<ItemView> {
    match item {
        Some(item) => Some(item@),
        None => None,
    }
}

/// Why reading stopped before the bytes at hand were used up.
#[derive(Clone, Copy, Debug, PartialEq, Eq, Structural)]
pub enum Halt {
    /// An event outgrew the decoder's limit.
    TooLarge,
    /// Something other than a message came: a reconnect time, in milliseconds.
    Unexpected(u32),
    /// The message came that closes a stream.
    Closed,
}

/// What is to be done about one item.
pub enum Triage {
    /// Take the payload for a chunk of a response.
    Payload(String),
    /// Stop reading until more bytes come.
    Stop(Halt),
}

/// What a [`Triage`] says.
pub enum TriageView {
    Payload(Seq<char>),
    Stop(Halt),
}

impl View for Triage {
    type V = TriageView;

    open spec fn view(&self) -> TriageView {
        match self {
            Triage::Payload(data) => TriageView::Payload(data@),
            Triage::Stop(halt) => TriageView::Stop(*halt),
        }
    }
}

/// Messages carry payloads, except the one that reads "[DONE]"; that one and everything
/// else stops the reading.
pub open spec fn triaged(item: ItemView) -> TriageView {
    match item {
        ItemView::Message(data) => if data == "[DONE]"@ {
            TriageView::Stop(Halt::Closed)
        } else {
            TriageView::Payload(data)
        },
        ItemView::Retry(millis) => TriageView::Stop(Halt::Unexpected(millis)),
        ItemView::TooLarge => TriageView::Stop(Halt::TooLarge),
    }
}

/// Decides what is to be done about one item of the stream.
pub fn triage(item: Item) -> (triage: Triage)
    ensures
        triage@ == triaged(item@),
{
    match item {
        Item::Message(data) => {
            if data == "[DONE]".to_string() {
                Triage::Stop(Halt::Closed)
            } else {
                Triage::Payload(data)
            }
        },
        Item::Retry(millis) => Triage::Stop(Halt::Unexpected(millis)),
        Item::TooLarge => Triage::Stop(Halt::TooLarge),
    }
}

/// What reading has brought forth.
pub struct Reading {
    /// The payloads of the messages, in order.
    pub payloads: Seq<Seq<char>>,
    /// Why the reading stopped early, if it did.
    pub halt: Option<Halt>,
    /// What the decoder has been fed.
    pub fed: Fed,
    /// The bytes that are left.
    pub rest: Seq<u8>,
}

/// Reads items off `bytes` until they are used up or one of them stops the reading.
pub open spec fn read(fed: Fed, bytes: Seq<u8>) -> Reading
    decreases bytes.len(),
{
    let here = Reading {
        payloads: Seq::empty(),
        halt: None,
        fed: fed.with(bytes),
        rest: fed.left_of(bytes),
    };
    match fed.answer(bytes) {
        None => here,
        Some(item) => match triaged(item) {
            TriageView::Stop(halt) => Reading { halt: Some(halt), ..here },
            TriageView::Payload(data) => if here.rest.len() < bytes.len() {
                read(here.fed, here.rest).after(data)
            } else {
                here.after(data)
            },
        },
    }
}

/// Every message and reconnect time that is read off `bytes` takes some of them, and is the
/// same whatever comes behind them.
pub open spec fn settled(fed: Fed, bytes: Seq<u8>) -> bool
    decreases bytes.len(),
{
    match fed.answer(bytes) {
        None => true,
        Some(ItemView::TooLarge) => true,
        Some(item) => fed.settles(bytes) && (triaged(item) is Payload ==> settled(
            fed.with(bytes),
            fed.left_of(bytes),
        )),
    }
}

impl Reading {
    /// The same reading with one more payload in front.
    pub open spec fn after(self, data: Seq<char>) -> Reading {
        Reading { payloads: seq![data] + self.payloads, ..self }
    }

    /// This reading brings forth what `before` and then `later` do, and leaves the same
    /// behind. An event that outgrows the limit is dropped from its start on, as far as it has
    /// not been taken before, so that the bytes left may then differ.
    pub open spec fn is_joined(self, before: Reading, later: Reading) -> bool {
        &&& self.payloads == before.payloads + later.payloads
        &&& self.halt == later.halt
        &&& self.fed == later.fed
        &&& self.halt != Some(Halt::TooLarge) ==> self.rest == later.rest
    }
}

/// The texts of `strings`.
pub open spec fn texts(strings: Seq<String>) -> Seq<Seq<char>> {
    Seq::new(strings.len(), |i: int| strings[i]@)
}

/// What one piece of the response body brought forth.
pub struct Batch {
    /// The payloads of the messages that the piece completed, in order.
    pub payloads: Vec<String>,
    /// Why reading stopped before the bytes were used up, if it did.
    pub halt: Option<Halt>,
}

/// Reads the events of one response while its body passes through piece by piece.
pub struct EventReader {
    decoder: SseDecoder,
    buffer: BytesMut,
}

impl EventReader {
    /// What the decoder has been fed.
    pub closed spec fn fed(self) -> Fed {
        fed(self.decoder)
    }

    /// The bytes that have come but are not used up.
    pub closed spec fn pending(self) -> Seq<u8> {
        buffered(self.buffer)
    }

    /// The reader is where it would be had `bytes` come in one piece when its decoder had been
    /// fed `start`, and nothing stopped the reading.
    pub open spec fn follows(self, start: Fed, bytes: Seq<u8>) -> bool {
        &&& settled(start, bytes)
        &&& read(start, bytes).halt is None
        &&& read(start, bytes).fed == self.fed()
        &&& self.pending().len() == 0
    }

    pub fn new() -> (reader: Self)
        ensures
            reader.fed() == (Fed { answered: Seq::empty(), open: Seq::empty() }),
            reader.pending() == Seq::<u8>::empty(),
    {
        Self { decoder: SseDecoder::new(), buffer: BytesMut::new() }
    }

    /// Takes the next piece of the body and returns the payloads that it completes. An
    /// item that stops the reading leaves the bytes behind it for the next piece. As long as
    /// nothing does, it makes no difference how the body is cut into pieces: pieces that come
    /// one after the other bring forth what they would in one.
    pub fn feed(&mut self, data: &[u8]) -> (batch: Batch)
        ensures
            texts(batch.payloads@) == read(old(self).fed(), old(self).pending() + data@).payloads,
            batch.halt == read(old(self).fed(), old(self).pending() + data@).halt,
            final(self).fed() == read(old(self).fed(), old(self).pending() + data@).fed,
            final(self).pending() == read(old(self).fed(), old(self).pending() + data@).rest,
            batch.halt is None ==> final(self).pending().len() == 0,
            exists|used: int|
                0 <= used <= (old(self).pending() + data@).len() && final(self).pending() == (old(
                    self,
                ).pending() + data@).skip(used),
            batch.halt is None ==> final(self).follows(
                old(self).fed(),
                old(self).pending() + data@,
            ),
            forall|start: Fed, bytes: Seq<u8>| #[trigger]
                old(self).follows(start, bytes) ==> {
                    &&& read(start, bytes + data@).is_joined(
                        read(start, bytes),
                        read(old(self).fed(), old(self).pending() + data@),
                    )
                    &&& batch.halt is None ==> final(self).follows(start, bytes + data@)
                },
    {
        let ghost input = self.pending() + data@;
        let ghost whole = read(self.fed(), input);
        let ghost mut used: int = 0;
        extend(&mut self.buffer, data);
        assert(input.skip(0) == input);
        let mut payloads: Vec<String> = Vec::new();
        let mut halt: Option<Halt> = None;
        assert(texts(payloads@) + read(self.fed(), self.pending()).payloads == whole.payloads);
        loop
            invariant_except_break
                texts(payloads@) + read(self.fed(), self.pending()).payloads == whole.payloads,
                read(self.fed(), self.pending()).halt == whole.halt,
                read(self.fed(), self.pending()).fed == whole.fed,
                read(self.fed(), self.pending()).rest == whole.rest,
                settled(self.fed(), self.pending()) ==> settled(old(self).fed(), input),
                halt is None,
            invariant
                input == old(self).pending() + data@,
                whole == read(old(self).fed(), input),
                0 <= used <= input.len(),
                self.pending() == input.skip(used),
            ensures
                texts(payloads@) == whole.payloads,
                halt == whole.halt,
                self.fed() == whole.fed,
                self.pending() == whole.rest,
                halt is None ==> self.pending().len() == 0,
                settled(old(self).fed(), input),
            decreases self.pending().len(),
        {
            let ghost before = read(self.fed(), self.pending());
            let ghost at = used;
            let ghost bytes = self.pending();
            let item = next(&mut self.decoder, &mut self.buffer);
            proof {
                used = at + (bytes.len() - self.pending().len());
                assert(self.pending() == input.skip(used));
            }
            match item {
                None => {
                    break;
                },
                Some(item) => match triage(item) {
                    Triage::Stop(why) => {
                        halt = Some(why);
                        break;
                    },
                    Triage::Payload(data) => {
                        let ghost sofar = texts(payloads@);
                        let ghost after = read(self.fed(), self.pending());
                        payloads.push(data);
                        assert(texts(payloads@) == sofar.push(data@));
                        assert(sofar + before.payloads == texts(payloads@) + after.payloads);
                    },
                },
            }
        }
        proof {
            assert forall|start: Fed, bytes: Seq<u8>| #[trigger]
                old(self).follows(start, bytes) implies {
                &&& read(start, bytes + data@).is_joined(
                    read(start, bytes),
                    read(old(self).fed(), input),
                )
                &&& halt is None ==> self.follows(start, bytes + data@)
            } by {
                assert(input == data@);
                lemma_pieces_join(start, bytes, data@);
            }
        }
        Batch { payloads, halt }
    }
}

/// Two pieces, of which the first does not stop the reading, bring forth what they would in
/// one.
proof fn lemma_pieces_join(fed: Fed, first: Seq<u8>, second: Seq<u8>)
    requires
        settled(fed, first),
        read(fed, first).halt is None,
        settled(read(fed, first).fed, second),
    ensures
        read(fed, first + second).is_joined(
            read(fed, first),
            read(read(fed, first).fed, second),
        ),
        settled(fed, first + second),
    decreases first.len(),
{
    let both = first + second;
    match fed.answer(first) {
        None => {
            let between = fed.with(first);
            let later = read(between, second);
            assert(between.input(second) == fed.input(both));
            assert(read(fed, first).payloads + later.payloads == later.payloads);
            if between.answer(second) is Some && !(between.answer(second)->0 is TooLarge) {
                let taken = fed.taken(both) as int;
                assert(fed.left_of(both) == fed.input(both).skip(taken));
                assert(between.left_of(second) == fed.input(both).skip(taken));
            }
        },
        Some(item) => {
            let taken = fed.taken(first) as int;
            let later = fed.left_of(first);
            assert(fed.input(both) == fed.input(first).take(taken) + (later + second));
            assert(fed.input(both).take(taken) == fed.input(first).take(taken));
            assert(fed.left_of(both) == later + second);
            assert(fed.with(both) == fed.with(first));
            lemma_pieces_join(fed.with(first), later, second);
            let before = read(fed.with(first), later);
            let after = read(before.fed, second);
            let data = triaged(item)->Payload_0;
            assert(seq![data] + (before.payloads + after.payloads) == (seq![data]
                + before.payloads) + after.payloads);
        },
    }
}

/// The message that closes a stream is never taken for a payload.
pub proof fn law_closing_message_is_no_payload(fed: Fed, bytes: Seq<u8>)
    ensures
        !read(fed, bytes).payloads.contains("[DONE]"@),
    decreases bytes.len(),
{
    if fed.left_of(bytes).len() < bytes.len() {
        law_closing_message_is_no_payload(fed.with(bytes), fed.left_of(bytes));
    }
}

/// Every message carries its payload as it is, however long, except the one that reads
/// "[DONE]".
pub proof fn law_messages_are_payloads(data: Seq<char>)
    ensures
        data != "[DONE]"@ ==> triaged(ItemView::Message(data)) == TriageView::Payload(data),
        data == "[DONE]"@ ==> triaged(ItemView::Message(data)) == TriageView::Stop(Halt::Closed),
{
}

/// Reading stops as closed only at the message that reads "[DONE]", as unexpected only at a
/// reconnect time, and as too large only at an event that is.
pub proof fn law_halt_tells_why(item: ItemView, millis: u32)
    ensures
        triaged(item) == TriageView::Stop(Halt::Closed) <==> item == ItemView::Message("[DONE]"@),
        triaged(item) == TriageView::Stop(Halt::Unexpected(millis)) <==> item == ItemView::Retry(
            millis,
        ),
        triaged(item) == TriageView::Stop(Halt::TooLarge) <==> item is TooLarge,
{
}

/// When the decoder answers with a message, its data is the first payload of the reading, and
/// what is read off the rest follows it; "[DONE]" is no payload and ends the reading there.
pub proof fn law_message_is_read_first(fed: Fed, bytes: Seq<u8>, data: Seq<char>)
    requires
        decoded(fed.answered, fed.open + bytes).0 == Some(ItemView::Message(data)),
    ensures
        data != "[DONE]"@ ==> read(fed, bytes).payloads.len() > 0 && read(fed, bytes).payloads[0]
            == data,
        data != "[DONE]"@ && fed.left_of(bytes).len() < bytes.len() ==> {
            &&& read(fed, bytes).payloads.skip(1) == read(
                fed.with(bytes),
                fed.left_of(bytes),
            ).payloads
            &&& read(fed, bytes).halt == read(fed.with(bytes), fed.left_of(bytes)).halt
            &&& read(fed, bytes).fed == read(fed.with(bytes), fed.left_of(bytes)).fed
            &&& read(fed, bytes).rest == read(fed.with(bytes), fed.left_of(bytes)).rest
        },
        data == "[DONE]"@ ==> read(fed, bytes).payloads.len() == 0 && read(fed, bytes).halt == Some(
            Halt::Closed,
        ),
{
    if data != "[DONE]"@ && fed.left_of(bytes).len() < bytes.len() {
        let later = read(fed.with(bytes), fed.left_of(bytes));
        assert(read(fed, bytes).payloads == seq![data] + later.payloads);
        assert(read(fed, bytes).payloads.skip(1) == later.payloads);
    }
}

/// Nothing but messages brings forth payloads: no answer ends the reading of a piece, and a
/// reconnect time or an oversized event stops it.
pub proof fn law_other_answers_are_no_payloads(fed: Fed, bytes: Seq<u8>)
    requires
        !(decoded(fed.answered, fed.open + bytes).0 matches Some(item) && item is Message),
    ensures
        read(fed, bytes).payloads.len() == 0,
        read(fed, bytes).fed == fed.with(bytes),
        read(fed, bytes).rest == fed.left_of(bytes),
        match decoded(fed.answered, fed.open + bytes).0 {
            Some(ItemView::Retry(millis)) => read(fed, bytes).halt == Some(
                Halt::Unexpected(millis),
            ),
            Some(_) => read(fed, bytes).halt == Some(Halt::TooLarge),
            None => read(fed, bytes).halt is None,
        },
{
}

/// Items and what is done about them are taken as they are, and texts are the characters of
/// their strings, in order.
pub proof fn law_items_are_taken_as_they_are(
    data: String,
    millis: u32,
    halt: Halt,
    strings: Seq<String>,
    at: int,
)
    ensures
        Item::Message(data)@ == ItemView::Message(data@),
        Item::Retry(millis)@ == ItemView::Retry(millis),
        Item::TooLarge@ == ItemView::TooLarge,
        Triage::Payload(data)@ == TriageView::Payload(data@),
        Triage::Stop(halt)@ == TriageView::Stop(halt),
        texts(strings).len() == strings.len(),
        0 <= at < strings.len() ==> texts(strings)[at] == strings[at]@,
{
}

} // verus!
