//! Handle transfer: values of handles that were duplicated into a verified peer, and the
//! peer's acknowledgement.

use crate::bytes::{from_le32, from_le64, integers_round_trip, le32, le64, push_le32, push_le64, read_le32, read_le64};
use vstd::prelude::*;

verus! {

/// A handle transfer carries at most this many handles.
pub const MAX_HANDLES: usize = 16;

/// The acknowledgement of a transfer.
pub const HANDLES_RECEIVED: u8 = 1;

/// What is wrong with a transfer.
#[derive(Debug, Clone, Copy, PartialEq, Eq, Structural)]
pub enum TransferFault {
    /// None, or more than a transfer carries.
    Count,
    /// A value is zero, or comes twice.
    Value,
    /// Another number of handles came than was asked for.
    Unexpected,
    /// The peer did not acknowledge.
    Unacknowledged,
}

impl TransferFault {
    /// What the fault says.
    pub open spec fn text(self) -> Seq<char> {
        match self {
            TransferFault::Count => "invalid handle transfer count"@,
            TransferFault::Value => "invalid transferred handle value"@,
            TransferFault::Unexpected => "unexpected transferred handle count"@,
            TransferFault::Unacknowledged => "peer did not acknowledge handles"@,
        }
    }

    /// The fault in words.
    pub fn message(self) -> (result: &'static str)
        ensures
            result@ == self.text(),
    {
        match self {
            TransferFault::Count => "invalid handle transfer count",
            TransferFault::Value => "invalid transferred handle value",
            TransferFault::Unexpected => "unexpected transferred handle count",
            TransferFault::Unacknowledged => "peer did not acknowledge handles",
        }
    }
}

/// Whether a transfer may carry that many handles.
pub fn check_count(count: usize) -> (result: Result<(), TransferFault>)
    ensures
        result == (if 1 <= count <= MAX_HANDLES {
            Ok::<(), TransferFault>(())
        } else {
            Err(TransferFault::Count)
        }),
{
    if count == 0 || count > MAX_HANDLES {
        return Err(TransferFault::Count);
    }
    Ok(())
}

/// The values after one another, eight bytes each.
pub open spec fn packed(values: Seq<u64>) -> Seq<u8>
    decreases values.len(),
{
    if values.len() == 0 {
        Seq::empty()
    } else {
        packed(values.drop_last()) + le64(values.last())
    }
}

/// The message of a transfer: the number of values, then the values.
pub open spec fn transfer_message(values: Seq<u64>) -> Seq<u8> {
    le32(values.len() as u32) + packed(values)
}

/// The message of a transfer.
pub fn encode(values: &Vec<u64>) -> (result: Vec<u8>)
    requires
        values@.len() <= MAX_HANDLES,
    ensures
        result@ == transfer_message(values@),
{
    let mut out: Vec<u8> = Vec::new();
    push_le32(&mut out, values.len() as u32);
    let ghost head = out@;
    let mut i: usize = 0;
    assert(out@ =~= head + packed(values@.take(0)));
    assert(head =~= le32(values@.len() as u32));
    while i < values.len()
        invariant
            i <= values@.len(),
            out@ == head + packed(values@.take(i as int)),
        decreases values@.len() - i,
    {
        push_le64(&mut out, values[i]);
        assert(values@.take(i + 1).drop_last() =~= values@.take(i as int));
        assert(out@ =~= head + packed(values@.take(i + 1)));
        i = i + 1;
    }
    assert(values@.take(i as int) =~= values@);
    out
}

/// Access for a duplicated handle in the peer.
#[derive(Debug, Clone, Copy, PartialEq, Eq, Structural)]
pub enum Access {
    /// The access this process holds.
    Same,
    /// Exactly these rights (never more than the source handle allows).
    Rights(u32),
}

/// What the sender of handles does next.
#[derive(Debug, PartialEq, Eq)]
pub enum SendStep {
    /// Duplicates the handle at this position into the peer with this access. The sender's own
    /// copy is closed whatever comes of it.
    Duplicate { position: usize, access: Access },
    /// Writes this message and waits for the acknowledgement.
    Write(Vec<u8>),
    /// Closes these values in the peer, which has seen none of them, and fails.
    Revoke(Vec<u64>),
}

/// A transfer of owned handles into a verified peer.
#[derive(Debug)]
pub struct Sending {
    objects: Vec<Access>,
    values: Vec<u64>,
    failed: bool,
}

impl Sending {
    pub closed spec fn spec_objects(self) -> Seq<Access> {
        self.objects@
    }

    /// The values of the handles that are in the peer.
    pub closed spec fn spec_values(self) -> Seq<u64> {
        self.values@
    }

    pub closed spec fn spec_failed(self) -> bool {
        self.failed
    }

    /// A transfer carries some handles, no more than the limit, and has duplicated no more than
    /// it carries.
    pub open spec fn wf(self) -> bool {
        &&& 1 <= self.spec_objects().len() <= MAX_HANDLES
        &&& self.spec_values().len() <= self.spec_objects().len()
    }

    /// Whether every handle is in the peer.
    pub open spec fn complete(self) -> bool {
        !self.spec_failed() && self.spec_values().len() == self.spec_objects().len()
    }

    /// Starts a transfer of handles with these accesses.
    pub fn new(objects: Vec<Access>) -> (result: Result<Self, TransferFault>)
        ensures
            match result {
                Ok(sending) => {
                    &&& sending.wf()
                    &&& sending.spec_objects() == objects@
                    &&& sending.spec_values() == Seq::<u64>::empty()
                    &&& !sending.spec_failed()
                },
                Err(fault) => fault == TransferFault::Count && !(1 <= objects@.len()
                    <= MAX_HANDLES),
            },
    {
        match check_count(objects.len()) {
            Ok(()) => Ok(Sending { objects, values: Vec::new(), failed: false }),
            Err(fault) => Err(fault),
        }
    }

    /// What to do next: handles are duplicated in their order until one fails, and the values
    /// are written only when all of them are in the peer.
    pub fn step(&self) -> (result: SendStep)
        requires
            self.wf(),
        ensures
            match result {
                SendStep::Revoke(values) => self.spec_failed() && values@ == self.spec_values(),
                SendStep::Write(message) => self.complete() && message@ == transfer_message(
                    self.spec_values(),
                ),
                SendStep::Duplicate { position, access } => {
                    &&& !self.spec_failed()
                    &&& position == self.spec_values().len()
                    &&& position < self.spec_objects().len()
                    &&& access == self.spec_objects()[position as int]
                },
            },
    {
        if self.failed {
            let mut values: Vec<u64> = Vec::new();
            let mut i: usize = 0;
            while i < self.values.len()
                invariant
                    i <= self.values@.len(),
                    values@ == self.values@.take(i as int),
                decreases self.values@.len() - i,
            {
                values.push(self.values[i]);
                i = i + 1;
                assert(values@ =~= self.values@.take(i as int));
            }
            assert(values@ =~= self.values@);
            return SendStep::Revoke(values);
        }
        let position: usize = self.values.len();
        if position < self.objects.len() {
            return SendStep::Duplicate { position, access: self.objects[position] };
        }
        SendStep::Write(encode(&self.values))
    }

    /// Takes note of a duplication: the value in the peer, or `None` where it failed. The
    /// handles after a failed one are only closed.
    pub fn duplicated(&mut self, value: Option<u64>)
        requires
            old(self).wf(),
            !old(self).spec_failed(),
            old(self).spec_values().len() < old(self).spec_objects().len(),
        ensures
            final(self).wf(),
            final(self).spec_objects() == old(self).spec_objects(),
            final(self).spec_failed() == (value is None),
            final(self).spec_values() == (match value {
                Some(value) => old(self).spec_values().push(value),
                None => old(self).spec_values(),
            }),
    {
        match value {
            Some(value) => {
                self.values.push(value);
            },
            None => {
                self.failed = true;
            },
        }
    }

    /// Takes note that the message could not be written.
    pub fn unwritten(&mut self)
        requires
            old(self).wf(),
        ensures
            final(self).wf(),
            final(self).spec_objects() == old(self).spec_objects(),
            final(self).spec_values() == old(self).spec_values(),
            final(self).spec_failed(),
    {
        self.failed = true;
    }
}

/// The number of values that a transfer announces in its first four bytes.
pub fn announced(header: &[u8]) -> (result: Result<usize, TransferFault>)
    requires
        header@.len() == 4,
    ensures
        ({
            let count = from_le32(header@);
            result == (if 1 <= count <= MAX_HANDLES {
                Ok::<usize, TransferFault>(count as usize)
            } else {
                Err(TransferFault::Count)
            })
        }),
{
    let count: u32 = read_le32(header, 0);
    assert(header@.subrange(0, 4) =~= header@);
    if count == 0 || count > MAX_HANDLES as u32 {
        return Err(TransferFault::Count);
    }
    Ok(count as usize)
}

/// The value at a position.
pub open spec fn value_at(bytes: Seq<u8>, i: int) -> int {
    from_le64(bytes.subrange(8 * i, 8 * i + 8))
}

/// Whether the values are usable: none is zero, and none comes twice.
pub open spec fn usable(bytes: Seq<u8>, count: int) -> bool {
    &&& forall|i: int| 0 <= i < count ==> #[trigger] value_at(bytes, i) != 0
    &&& forall|i: int, j: int|
        0 <= i < j < count ==> #[trigger] value_at(bytes, i) != #[trigger] value_at(bytes, j)
}

/// Takes the values of a transfer, with eight bytes for each.
pub fn decode(bytes: &Vec<u8>) -> (result: Result<Vec<u64>, TransferFault>)
    requires
        bytes@.len() % 8 == 0,
    ensures
        match result {
            Ok(values) => {
                &&& usable(bytes@, bytes@.len() as int / 8)
                &&& values@.len() == bytes@.len() / 8
                &&& forall|i: int|
                    0 <= i < values@.len() ==> #[trigger] values@[i] == value_at(bytes@, i)
            },
            Err(fault) => fault == TransferFault::Value && !usable(bytes@, bytes@.len() as int / 8),
        },
{
    let count: usize = bytes.len() / 8;
    let mut values: Vec<u64> = Vec::new();
    while values.len() < count
        invariant
            bytes@.len() == 8 * count,
            values@.len() <= count,
            forall|i: int| 0 <= i < values@.len() ==> #[trigger] values@[i] == value_at(bytes@, i),
            usable(bytes@, values@.len() as int),
        decreases count - values@.len(),
    {
        let at: usize = values.len();
        let len: usize = bytes.len();
        assert(at * 8 + 8 <= len);
        let value: u64 = read_le64(bytes.as_slice(), at * 8);
        assert(value == value_at(bytes@, at as int));
        if value == 0 {
            return Err(TransferFault::Value);
        }
        let mut j: usize = 0;
        while j < at
            invariant
                at < count,
                at == values@.len(),
                j <= at,
                value == value_at(bytes@, at as int),
                bytes@.len() == 8 * count,
                forall|i: int|
                    0 <= i < values@.len() ==> #[trigger] values@[i] == value_at(bytes@, i),
                forall|i: int| 0 <= i < j ==> #[trigger] value_at(bytes@, i) != value,
            decreases at - j,
        {
            if values[j] == value {
                assert(value_at(bytes@, j as int) == value_at(bytes@, at as int));
                return Err(TransferFault::Value);
            }
            j = j + 1;
        }
        values.push(value);
    }
    Ok(values)
}

/// Whether as many handles came as were asked for. What came is owned and acknowledged either
/// way.
pub fn check_received(received: usize, asked: usize) -> (result: Result<(), TransferFault>)
    ensures
        result == (if received == asked {
            Ok::<(), TransferFault>(())
        } else {
            Err(TransferFault::Unexpected)
        }),
{
    if received != asked {
        return Err(TransferFault::Unexpected);
    }
    Ok(())
}

/// Whether the peer acknowledged a transfer.
pub fn check_receipt(receipt: u8) -> (result: Result<(), TransferFault>)
    ensures
        result == (if receipt == HANDLES_RECEIVED {
            Ok::<(), TransferFault>(())
        } else {
            Err(TransferFault::Unacknowledged)
        }),
{
    if receipt != HANDLES_RECEIVED {
        return Err(TransferFault::Unacknowledged);
    }
    Ok(())
}

proof fn lemma_packed(values: Seq<u64>, i: int)
    requires
        0 <= i < values.len(),
    ensures
        packed(values).len() == 8 * values.len(),
        value_at(packed(values), i) == values[i],
    decreases values.len(),
{
    let rest = values.drop_last();
    integers_round_trip(0, values.last());
    lemma_packed_len(values);
    lemma_packed_len(rest);
    if i < rest.len() {
        lemma_packed(rest, i);
        assert(packed(values).subrange(8 * i, 8 * i + 8) =~= packed(rest).subrange(
            8 * i,
            8 * i + 8,
        ));
    } else {
        assert(packed(values).subrange(8 * i, 8 * i + 8) =~= le64(values.last()));
    }
}

proof fn lemma_packed_len(values: Seq<u64>)
    ensures
        packed(values).len() == 8 * values.len(),
    decreases values.len(),
{
    if values.len() > 0 {
        lemma_packed_len(values.drop_last());
        integers_round_trip(0, values.last());
    }
}

/// What is sent is what is received: the announced number, and every value at its place.
pub proof fn transfers_round_trip(values: Seq<u64>, i: int)
    requires
        1 <= values.len() <= MAX_HANDLES,
        0 <= i < values.len(),
    ensures
        ({
            let message = transfer_message(values);
            &&& from_le32(message.subrange(0, 4)) == values.len()
            &&& message.subrange(4, message.len() as int).len() == 8 * values.len()
            &&& value_at(message.subrange(4, message.len() as int), i) == values[i]
        }),
{
    integers_round_trip(values.len() as u32, 0);
    let message = transfer_message(values);
    assert(message.subrange(0, 4) =~= le32(values.len() as u32));
    assert(message.subrange(4, message.len() as int) =~= packed(values));
    lemma_packed(values, i);
}

} // verus!
