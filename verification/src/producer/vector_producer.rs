//! Results that go to vector, in batches.

use super::{check_result_json, get_schema, schema_fault, schema_of, ExtractCodeError};
use vstd::arithmetic::power2::{lemma2_to64, lemma_pow2_strictly_increases, lemma_pow2_unfold, pow2};
use vstd::prelude::*;
use vstd::utf8::{decode_utf8, valid_utf8};

verus! {

/// How long the first repetition waits, in milliseconds.
pub const BASE_DELAY_MS: u64 = 100;

/// How long a repetition waits at most, in milliseconds.
pub const MAX_DELAY_MS: u64 = 2000;

/// How many results have been handed over and not been taken up yet. The count wraps
/// round, since a result may be taken up before it is counted.
#[derive(Debug)]
pub struct PendingItems {
    count: usize,
}

impl PendingItems {
    /// The count.
    pub closed spec fn view(&self) -> usize {
        self.count
    }

    /// A count of none.
    pub fn new() -> (r: PendingItems)
        ensures
            r.view() == 0,
    {
        PendingItems { count: 0 }
    }

    /// Counts a result that was handed over.
    pub fn handed_over(&mut self)
        ensures
            final(self).view() == old(self).view().wrapping_add(1),
    {
        self.count = self.count.wrapping_add(1);
    }

    /// Counts a result that was taken up, and tells the count before.
    pub fn taken_up(&mut self) -> (r: usize)
        ensures
            r == old(self).view(),
            final(self).view() == old(self).view().wrapping_sub(1),
    {
        let before = self.count;
        self.count = before.wrapping_sub(1);
        before
    }
}

/// Hands results over to a worker, which sends them to vector.
pub struct VectorResultsProducer {
    schema: sentry_kafka_schemas::Schema,
    pending_items: PendingItems,
}

impl VectorResultsProducer {
    /// The schema that results have to fit.
    pub closed spec fn fits(self) -> sentry_kafka_schemas::Schema {
        self.schema
    }

    /// How many results the worker has not taken up yet.
    pub closed spec fn pending(self) -> usize {
        self.pending_items@
    }

    /// A producer for a topic.
    pub fn new(topic_name: &str) -> (r: VectorResultsProducer)
        requires
            schema_of(topic_name@) is Ok,
        ensures
            schema_of(topic_name@) == Ok::<sentry_kafka_schemas::Schema, Seq<char>>(r.fits()),
            r.pending() == 0,
    {
        let schema = get_schema(topic_name).unwrap();
        VectorResultsProducer { schema, pending_items: PendingItems::new() }
    }

    /// A producer for a topic, if that has a schema.
    pub fn find(topic_name: &str) -> (r: Result<VectorResultsProducer, ExtractCodeError>)
        ensures
            match schema_of(topic_name@) {
                Ok(schema) => r matches Ok(p) && p.fits() == schema && p.pending() == 0,
                Err(e) => r matches Err(ExtractCodeError::Schema(x)) && x@ == e,
            },
    {
        match get_schema(topic_name) {
            Ok(_) => Ok(VectorResultsProducer::new(topic_name)),
            Err(e) => Err(ExtractCodeError::Schema(e)),
        }
    }

    /// Whether a result, written as JSON, may be handed over.
    pub fn check_result(&self, json: &Vec<u8>) -> (r: Result<(), ExtractCodeError>)
        ensures
            match schema_fault(self.fits(), json@) {
                None => r is Ok,
                Some(e) => r matches Err(ExtractCodeError::Schema(x)) && x@ == e,
            },
    {
        check_result_json(&self.schema, json)
    }

    /// Counts a result that was handed over. Where the worker is gone, it could not be.
    pub fn after_send(&mut self, sent: bool) -> (r: Result<(), ExtractCodeError>)
        ensures
            final(self).fits() == old(self).fits(),
            sent ==> r is Ok && final(self).pending() == old(self).pending().wrapping_add(1),
            !sent ==> (r matches Err(ExtractCodeError::VectorError)) && final(self).pending()
                == old(self).pending(),
    {
        if !sent {
            return Err(ExtractCodeError::VectorError);
        }
        self.pending_items.handed_over();
        Ok(())
    }

    /// Counts a result that the worker took up, and tells the count before.
    pub fn taken_up(&mut self) -> (r: usize)
        ensures
            r == old(self).pending(),
            final(self).fits() == old(self).fits(),
            final(self).pending() == old(self).pending().wrapping_sub(1),
    {
        self.pending_items.taken_up()
    }
}

/// Byte strings by their bytes.
pub open spec fn bytes_of(items: Seq<Vec<u8>>) -> Seq<Seq<u8>> {
    items.map_values(|item: Vec<u8>| item@)
}

/// Collects results until there are enough of them for a batch.
#[derive(Debug)]
pub struct Batcher {
    batch_size: usize,
    batch: Vec<Vec<u8>>,
}

impl Batcher {
    /// How many results make a batch.
    pub closed spec fn size(self) -> usize {
        self.batch_size
    }

    /// The results that wait for others.
    pub closed spec fn waiting(self) -> Seq<Seq<u8>> {
        bytes_of(self.batch@)
    }

    /// What waits is not enough for a batch yet.
    pub open spec fn wf(self) -> bool {
        self.waiting().len() == 0 || self.waiting().len() < self.size()
    }

    /// A collection without results.
    pub fn new(batch_size: usize) -> (r: Batcher)
        ensures
            r.wf(),
            r.size() == batch_size,
            r.waiting() == Seq::<Seq<u8>>::empty(),
    {
        let r = Batcher { batch_size, batch: Vec::new() };
        proof {
            assert(bytes_of(r.batch@) =~= Seq::<Seq<u8>>::empty());
        }
        r
    }

    /// Adds a result, and hands the batch out once there are enough.
    pub fn push(&mut self, json: Vec<u8>) -> (r: Option<Vec<Vec<u8>>>)
        requires
            old(self).wf(),
        ensures
            final(self).wf(),
            takes_in(*old(self), *final(self), json@, handed_out(r)),
    {
        let ghost before = bytes_of(self.batch@);
        let ghost item = json@;
        self.batch.push(json);
        proof {
            assert(bytes_of(self.batch@) =~= before.push(item));
        }
        if self.batch.len() < self.batch_size {
            return None;
        }
        let mut batch: Vec<Vec<u8>> = Vec::new();
        std::mem::swap(&mut batch, &mut self.batch);
        proof {
            assert(bytes_of(self.batch@) =~= Seq::<Seq<u8>>::empty());
        }
        Some(batch)
    }

    /// What is left over in the end, if anything is.
    pub fn finish(self) -> (r: Option<Vec<Vec<u8>>>)
        ensures
            match r {
                None => self.waiting().len() == 0,
                Some(batch) => self.waiting().len() > 0 && bytes_of(batch@) == self.waiting(),
            },
    {
        if self.batch.len() == 0 {
            None
        } else {
            Some(self.batch)
        }
    }
}

/// The results of a batch, where one was handed out.
pub open spec fn handed_out(batch: Option<Vec<Vec<u8>>>) -> Option<Seq<Seq<u8>>> {
    match batch {
        None => None,
        Some(items) => Some(bytes_of(items@)),
    }
}

/// A collection takes a result in: where that makes enough for a batch, the batch is
/// handed out and nothing waits, else the result waits behind the others.
pub open spec fn takes_in(
    before: Batcher,
    after: Batcher,
    json: Seq<u8>,
    batch: Option<Seq<Seq<u8>>>,
) -> bool {
    let grown = before.waiting().push(json);
    &&& after.size() == before.size()
    &&& if grown.len() < before.size() {
        batch is None && after.waiting() == grown
    } else {
        batch == Some(grown) && after.waiting() == Seq::<Seq<u8>>::empty()
    }
}

/// The batches that results make, and what is left over.
pub open spec fn batches_of(items: Seq<Seq<u8>>, size: int) -> (Seq<Seq<Seq<u8>>>, Seq<Seq<u8>>)
    decreases items.len(),
{
    if items.len() == 0 {
        (Seq::empty(), Seq::empty())
    } else {
        let (batches, waiting) = batches_of(items.drop_last(), size);
        let grown = waiting.push(items.last());
        if grown.len() < size {
            (batches, grown)
        } else {
            (batches.push(grown), Seq::empty())
        }
    }
}

/// The results of batches, one behind the other.
pub open spec fn flattened(batches: Seq<Seq<Seq<u8>>>) -> Seq<Seq<u8>>
    decreases batches.len(),
{
    if batches.len() == 0 {
        Seq::empty()
    } else {
        flattened(batches.drop_last()) + batches.last()
    }
}

/// No result is lost, none comes twice and none overtakes another: the batches and
/// what is left over are the results in order. Every batch is full, and what is left
/// over is not.
pub proof fn law_batches_keep_every_result(items: Seq<Seq<u8>>, size: int)
    requires
        0 < size,
    ensures
        flattened(batches_of(items, size).0) + batches_of(items, size).1 == items,
        batches_of(items, size).1.len() < size,
        forall|i: int|
            0 <= i < batches_of(items, size).0.len() ==> (#[trigger] batches_of(
                items,
                size,
            ).0[i]).len() == size,
    decreases items.len(),
{
    if items.len() > 0 {
        law_batches_keep_every_result(items.drop_last(), size);
        let (before, waiting) = batches_of(items.drop_last(), size);
        let (batches, left) = batches_of(items, size);
        let grown = waiting.push(items.last());
        if grown.len() >= size {
            assert(batches == before.push(grown));
            assert(batches.drop_last() =~= before);
            assert(flattened(batches) =~= flattened(before) + grown);
        }
        assert(flattened(batches) + left =~= items.drop_last().push(items.last()));
        assert(items.drop_last().push(items.last()) =~= items);
    } else {
        assert(flattened(batches_of(items, size).0) + batches_of(items, size).1 =~= items);
    }
}

/// What a collection has handed out and what waits in it are the batches that its
/// results make: nothing for a new one, and a result that is taken in keeps it so.
pub proof fn law_collection_makes_the_batches(
    before: Batcher,
    after: Batcher,
    items: Seq<Seq<u8>>,
    json: Seq<u8>,
    batch: Option<Seq<Seq<u8>>>,
)
    requires
        before.waiting() == batches_of(items, before.size() as int).1,
        takes_in(before, after, json, batch),
    ensures
        batches_of(Seq::empty(), before.size() as int) == (
            Seq::<Seq<Seq<u8>>>::empty(),
            Seq::<Seq<u8>>::empty(),
        ),
        after.waiting() == batches_of(items.push(json), after.size() as int).1,
        batches_of(items.push(json), after.size() as int).0 == (match batch {
            None => batches_of(items, before.size() as int).0,
            Some(full) => batches_of(items, before.size() as int).0.push(full),
        }),
{
    assert(items.push(json).drop_last() =~= items);
}

/// `String::from_utf8`, which std documents as giving back the text of bytes that are
/// valid UTF-8, and failing on others.
#[verifier::external_body]
fn utf8_text(bytes: &Vec<u8>) -> (r: Option<String>)
    ensures
        match r {
            Some(s) => valid_utf8(bytes@) && s@ == decode_utf8(bytes@),
            None => !valid_utf8(bytes@),
        },
{
    String::from_utf8(bytes.clone()).ok()
}

/// The lines that results make. One that is no text makes none.
pub open spec fn lines_of(items: Seq<Seq<u8>>) -> Seq<char>
    decreases items.len(),
{
    if items.len() == 0 {
        Seq::empty()
    } else if valid_utf8(items.last()) {
        lines_of(items.drop_last()) + decode_utf8(items.last()) + "\n"@
    } else {
        lines_of(items.drop_last())
    }
}

/// The body of the request for a batch: each result on a line of its own.
pub fn request_body(batch: &Vec<Vec<u8>>) -> (r: String)
    ensures
        r@ == lines_of(bytes_of(batch@)),
{
    let mut body = String::new();
    let ghost items = bytes_of(batch@);
    let mut i: usize = 0;
    proof {
        assert(body@ =~= lines_of(items.take(0)));
    }
    while i < batch.len()
        invariant
            i <= batch@.len(),
            items == bytes_of(batch@),
            body@ == lines_of(items.take(i as int)),
        decreases batch.len() - i,
    {
        proof {
            assert(items.take(i + 1).drop_last() =~= items.take(i as int));
            assert(items.take(i + 1).last() == batch@[i as int]@);
        }
        if let Some(s) = utf8_text(&batch[i]) {
            body.append(s.as_str());
            body.append("\n");
        }
        i = i + 1;
    }
    proof {
        assert(items.take(i as int) =~= items);
    }
    body
}

/// How long a repetition waits: twice as long each time, up to a limit.
pub open spec fn delay_of(num_of_retries: nat) -> int {
    let grown = BASE_DELAY_MS * pow2(num_of_retries);
    if grown < MAX_DELAY_MS {
        grown
    } else {
        MAX_DELAY_MS as int
    }
}

/// How long a repetition waits after so many others, in milliseconds.
pub fn retry_delay_ms(num_of_retries: u32) -> (r: u64)
    ensures
        r == delay_of(num_of_retries as nat),
{
    proof {
        lemma2_to64();
    }
    if num_of_retries >= 5 {
        proof {
            if num_of_retries > 5 {
                lemma_pow2_strictly_increases(5, num_of_retries as nat);
            }
        }
        return MAX_DELAY_MS;
    }
    let mut delay: u64 = BASE_DELAY_MS;
    let mut i: u32 = 0;
    while i < num_of_retries
        invariant
            i <= num_of_retries < 5,
            delay == BASE_DELAY_MS * pow2(i as nat),
            delay <= 1600,
            i < 4 ==> delay <= 800,
            i < 3 ==> delay <= 400,
            i < 2 ==> delay <= 200,
            i < 1 ==> delay <= 100,
        decreases num_of_retries - i,
    {
        proof {
            lemma_pow2_unfold((i + 1) as nat);
        }
        delay = delay * 2;
        i = i + 1;
    }
    delay
}

/// What is done after an attempt to send a batch.
#[derive(Clone, Copy, Debug, PartialEq, Eq, Structural)]
pub enum SendStep {
    /// The batch was taken.
    Done,
    /// It was not, and is given up.
    GiveUp,
    /// It was not, and is sent again after so many milliseconds.
    RetryAfter(u64),
}

/// What is done after an attempt to send a batch.
pub open spec fn send_step(
    status: Option<u16>,
    retry_errors_forever: bool,
    num_of_retries: u32,
) -> SendStep {
    if status matches Some(code) && !(500 <= code < 600) {
        SendStep::Done
    } else if !retry_errors_forever {
        SendStep::GiveUp
    } else {
        SendStep::RetryAfter(delay_of(num_of_retries as nat) as u64)
    }
}

/// Decides after an attempt to send a batch: by the status of the answer, if there was
/// one, whether to try until it is taken, and how often it was tried again already. Only
/// an error of the server, or no answer, is a failure.
pub fn after_attempt(status: Option<u16>, retry_errors_forever: bool, num_of_retries: u32) -> (r:
    SendStep)
    ensures
        r == send_step(status, retry_errors_forever, num_of_retries),
{
    if let Some(code) = status {
        if code < 500 || code >= 600 {
            return SendStep::Done;
        }
    }
    if !retry_errors_forever {
        return SendStep::GiveUp;
    }
    SendStep::RetryAfter(retry_delay_ms(num_of_retries))
}

/// A repetition never waits less than the one before, and never longer than the limit.
pub proof fn law_delays_grow_up_to_a_limit(num_of_retries: nat)
    ensures
        BASE_DELAY_MS <= delay_of(num_of_retries) <= delay_of(num_of_retries + 1) <= MAX_DELAY_MS,
{
    lemma_pow2_unfold(num_of_retries + 1);
    lemma2_to64();
    if num_of_retries > 0 {
        lemma_pow2_strictly_increases(0, num_of_retries);
    }
}

/// A batch is sent again only where trying on is asked for, and there until an answer
/// comes that is no error of the server: every answer but one of the five hundreds ends
/// it, and a missing answer does not.
pub proof fn law_batches_are_sent_until_they_are_taken(
    code: u16,
    retry_errors_forever: bool,
    num_of_retries: u32,
)
    ensures
        code / 100 != 5 ==> send_step(Some(code), retry_errors_forever, num_of_retries)
            == SendStep::Done,
        code / 100 == 5 ==> send_step(Some(code), retry_errors_forever, num_of_retries)
            == send_step(None, retry_errors_forever, num_of_retries),
        send_step(None, false, num_of_retries) == SendStep::GiveUp,
        send_step(None, true, num_of_retries) is RetryAfter,
{
}

/// Each repetition waits twice as long as the one before, until that would be more than
/// two seconds; the first waits a tenth of one.
pub proof fn law_delays_double(num_of_retries: u32)
    requires
        num_of_retries < u32::MAX,
    ensures
        send_step(None, true, 0) == SendStep::RetryAfter(100),
        ({
            let wait = send_step(None, true, num_of_retries)->RetryAfter_0;
            let next = send_step(None, true, (num_of_retries + 1) as u32)->RetryAfter_0;
            &&& 2 * wait < 2000 ==> next == 2 * wait
            &&& 2 * wait >= 2000 ==> next == 2000
        }),
{
    lemma2_to64();
    lemma_pow2_unfold((num_of_retries + 1) as nat);
    law_delays_grow_up_to_a_limit(num_of_retries as nat);
}

/// Each result that is text has a line of its own, in order, and another has none: the
/// lines of two batches are those of the one, and behind them those of the other.
pub proof fn law_each_result_has_a_line(front: Seq<Seq<u8>>, back: Seq<Seq<u8>>, item: Seq<u8>)
    ensures
        lines_of(front + back) == lines_of(front) + lines_of(back),
        valid_utf8(item) ==> lines_of(seq![item]) == decode_utf8(item) + "\n"@,
        !valid_utf8(item) ==> lines_of(seq![item]).len() == 0,
    decreases back.len(),
{
    let one = seq![item];
    assert(one.drop_last() =~= Seq::<Seq<u8>>::empty());
    assert(lines_of(one.drop_last()) =~= Seq::<char>::empty());
    if valid_utf8(item) {
        assert(lines_of(one) =~= decode_utf8(item) + "\n"@);
    }
    if back.len() > 0 {
        let fewer = back.drop_last();
        law_each_result_has_a_line(front, fewer, item);
        assert((front + back).drop_last() =~= front + fewer);
        assert((front + back).last() == back.last());
        assert(lines_of(front + back) =~= lines_of(front) + lines_of(back));
    } else {
        assert(front + back =~= front);
        assert(lines_of(front + back) =~= lines_of(front) + lines_of(back));
    }
}

} // verus!
