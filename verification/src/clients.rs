//! The connected clients: for each client id, the stream of its requests and
//! the half of its socket that the daemon writes snapshots to.
use std::collections::HashMap;
use tokio::net::unix::{OwnedReadHalf, OwnedWriteHalf};
use tokio::net::UnixStream;
use tokio_stream::{StreamMap, StreamNotifyClose};
use tokio_util::codec::{BytesCodec, FramedRead};
use vstd::multiset::Multiset;
use vstd::prelude::*;
use vstd::std_specs::iter::IteratorSpec;

verus! {

#[verifier::external_type_specification]
#[verifier::external_body]
#[verifier::reject_recursive_types(K)]
#[verifier::reject_recursive_types(V)]
pub struct ExStreamMap<K, V>(StreamMap<K, V>);

#[verifier::external_type_specification]
#[verifier::external_body]
#[verifier::reject_recursive_types(S)]
pub struct ExStreamNotifyClose<S>(StreamNotifyClose<S>);

#[verifier::external_type_specification]
#[verifier::external_body]
#[verifier::reject_recursive_types(T)]
#[verifier::reject_recursive_types(D)]
pub struct ExFramedRead<T, D>(FramedRead<T, D>);

#[verifier::external_type_specification]
#[verifier::external_body]
pub struct ExBytesCodec(BytesCodec);

#[verifier::external_type_specification]
#[verifier::external_body]
pub struct ExOwnedReadHalf(OwnedReadHalf);

#[verifier::external_type_specification]
#[verifier::external_body]
pub struct ExOwnedWriteHalf(OwnedWriteHalf);

#[verifier::external_type_specification]
#[verifier::external_body]
pub struct ExUnixStream(UnixStream);

/// The requests of one client: the bytes it sends, framed as they arrive,
/// followed by one `None` when the client closes its side.
pub type ClientReader = StreamNotifyClose<FramedRead<OwnedReadHalf, BytesCodec>>;

/// The keys that `readers` holds, each as often as it holds it. A
/// `StreamMap` can hold a key more than once (`Extend` appends without
/// looking for it).
pub uninterp spec fn reader_keys(readers: StreamMap<u64, ClientReader>) -> Multiset<u64>;

/// `StreamMap::new()`: a map that holds no stream.
#[verifier::external_body]
fn readers_new() -> (m: StreamMap<u64, ClientReader>)
    ensures
        reader_keys(m) == Multiset::<u64>::empty(),
{
    StreamMap::new()
}

/// `StreamMap::insert`: one entry under `id`, if any, is taken out and
/// returned; then `id` is added with `reader`.
#[verifier::external_body]
fn readers_insert(m: &mut StreamMap<u64, ClientReader>, id: u64, reader: ClientReader) -> (r:
    Option<ClientReader>)
    ensures
        reader_keys(*final(m)) == reader_keys(*old(m)).remove(id).insert(id),
        r is Some <==> reader_keys(*old(m)).contains(id),
{
    m.insert(id, reader)
}

/// `StreamMap::remove`: one entry under `id`, if any, is taken out and
/// returned.
#[verifier::external_body]
fn readers_remove(m: &mut StreamMap<u64, ClientReader>, id: u64) -> (r: Option<ClientReader>)
    ensures
        reader_keys(*final(m)) == reader_keys(*old(m)).remove(id),
        r is Some <==> reader_keys(*old(m)).contains(id),
{
    m.remove(&id)
}

/// `UnixStream::into_split`: the read and the write half of a socket.
#[verifier::external_body]
fn split_stream(client: UnixStream) -> (OwnedReadHalf, OwnedWriteHalf) {
    client.into_split()
}

/// `BytesCodec::new()`.
#[verifier::external_body]
fn bytes_codec() -> BytesCodec {
    BytesCodec::new()
}

/// `FramedRead::new`: the frames that `codec` reads from `reader`.
#[verifier::external_body]
fn framed_read(reader: OwnedReadHalf, codec: BytesCodec) -> FramedRead<OwnedReadHalf, BytesCodec> {
    FramedRead::new(reader, codec)
}

/// `StreamNotifyClose::new`: `stream`, followed by one `None` at its end.
#[verifier::external_body]
fn notify_close(stream: FramedRead<OwnedReadHalf, BytesCodec>) -> ClientReader {
    StreamNotifyClose::new(stream)
}

/// `HashMap::get_mut`: the value at `id`, to be changed in place; where
/// there is none the map is left as it was.
#[verifier::external_body]
fn writer_entry(m: &mut HashMap<u64, OwnedWriteHalf>, id: u64) -> (r: Option<&mut OwnedWriteHalf>)
    ensures
        r is Some <==> old(m)@.contains_key(id),
        r matches Some(w) ==> *w == old(m)@[id] && final(m)@ == old(m)@.insert(id, *final(w)),
        r is None ==> final(m)@ == old(m)@,
{
    m.get_mut(&id)
}

/// What the request stream of a client yielded.
#[derive(Debug, Clone, Copy, PartialEq, Eq, Structural)]
pub enum ReaderEvent {
    /// Bytes: the client asks for the current snapshot.
    Request,
    /// Reading from the client failed.
    ReadFailed,
    /// The client closed its side.
    Closed,
}

/// The course of a broadcast: the clients to write to, in order, and how
/// far it has gone. The first failed write ends it.
pub struct Broadcast {
    targets: Vec<u64>,
    handed: usize,
    stopped: bool,
}

impl Broadcast {
    pub closed spec fn targets(self) -> Seq<u64> {
        self.targets@
    }

    /// How many targets have been handed out.
    pub closed spec fn handed(self) -> nat {
        self.handed as nat
    }

    /// Whether a write has failed.
    pub closed spec fn stopped(self) -> bool {
        self.stopped
    }

    /// A broadcast to `targets`, in that order.
    pub fn new(targets: Vec<u64>) -> (b: Broadcast)
        ensures
            b.targets() == targets@,
            b.handed() == 0,
            !b.stopped(),
    {
        Broadcast { targets, handed: 0, stopped: false }
    }

    /// The next client to write to: the next target in order, or `None` once
    /// every target was handed out or a write failed.
    pub fn next(&mut self) -> (id: Option<u64>)
        ensures
            final(self).targets() == old(self).targets(),
            final(self).stopped() == old(self).stopped(),
            old(self).stopped() || old(self).handed() >= old(self).targets().len() ==> id is None
                && final(self).handed() == old(self).handed(),
            !old(self).stopped() && old(self).handed() < old(self).targets().len() ==> id == Some(
                old(self).targets()[old(self).handed() as int],
            ) && final(self).handed() == old(self).handed() + 1,
    {
        if self.stopped || self.handed >= self.targets.len() {
            None
        } else {
            let id = self.targets[self.handed];
            self.handed = self.handed + 1;
            Some(id)
        }
    }

    /// Records the outcome of the write to the last client handed out.
    pub fn record(&mut self, written: bool)
        ensures
            final(self).targets() == old(self).targets(),
            final(self).handed() == old(self).handed(),
            final(self).stopped() == (old(self).stopped() || !written),
    {
        if !written {
            self.stopped = true;
        }
    }
}

/// The connected clients.
pub struct Clients {
    readers: StreamMap<u64, ClientReader>,
    writers: HashMap<u64, OwnedWriteHalf>,
}

impl Clients {
    /// The ids of the request streams held, each as often as it is held.
    pub closed spec fn reader_keys(self) -> Multiset<u64> {
        reader_keys(self.readers)
    }

    /// The ids whose request stream is still held.
    pub open spec fn reader_ids(self) -> Set<u64> {
        self.reader_keys().dom()
    }

    /// No id has more than one request stream. The operations of `Clients`
    /// keep this; a map changed through [`Self::readers`] may not.
    pub open spec fn readers_distinct(self) -> bool {
        forall|id: u64| #[trigger] self.reader_keys().count(id) <= 1
    }

    /// The ids that the daemon can write to.
    pub closed spec fn writer_ids(self) -> Set<u64> {
        self.writers@.dom()
    }

    /// The write half of the client `id` (meaningful where `id` is one of
    /// [`Self::writer_ids`]).
    pub closed spec fn writer_of(self, id: u64) -> OwnedWriteHalf {
        self.writers@[id]
    }

    pub fn new() -> (c: Self)
        ensures
            c.reader_keys() == Multiset::<u64>::empty(),
            c.reader_ids() == Set::<u64>::empty(),
            c.readers_distinct(),
            c.writer_ids() == Set::<u64>::empty(),
    {
        Clients { readers: readers_new(), writers: HashMap::new() }
    }

    /// Registers a freshly accepted client under `id`: its requests are read
    /// from its socket, and snapshots are written back to it.
    pub fn insert(&mut self, id: u64, client: UnixStream)
        ensures
            final(self).reader_keys() == old(self).reader_keys().remove(id).insert(id),
            final(self).reader_ids() == old(self).reader_ids().insert(id),
            old(self).readers_distinct() ==> final(self).readers_distinct(),
            final(self).writer_ids() == old(self).writer_ids().insert(id),
            forall|other: u64|
                other != id ==> #[trigger] final(self).writer_of(other) == old(self).writer_of(
                    other,
                ),
    {
        broadcast use vstd::std_specs::hash::group_hash_axioms;

        let (reader, writer) = split_stream(client);
        let reader = notify_close(framed_read(reader, bytes_codec()));
        readers_insert(&mut self.readers, id, reader);
        self.writers.insert(id, writer);
    }

    /// The write half of the client `id`, if the daemon still writes to it.
    pub fn writer(&mut self, id: u64) -> (w: Option<&mut OwnedWriteHalf>)
        ensures
            w is Some <==> old(self).writer_ids().contains(id),
            w matches Some(x) ==> *x == old(self).writer_of(id) && final(self).writer_of(id)
                == *final(x),
            forall|other: u64|
                other != id ==> #[trigger] final(self).writer_of(other) == old(self).writer_of(
                    other,
                ),
            final(self).writer_ids() == old(self).writer_ids(),
            final(self).reader_keys() == old(self).reader_keys(),
    {
        writer_entry(&mut self.writers, id)
    }

    /// The ids the daemon writes to, each once, in the map's order.
    pub fn ids(&self) -> (ids: Vec<u64>)
        ensures
            ids@.to_set() == self.writer_ids(),
            ids@.no_duplicates(),
    {
        broadcast use vstd::std_specs::hash::group_hash_axioms;

        let mut ids: Vec<u64> = Vec::new();
        let keys = self.writers.keys();
        let ghost all = keys.remaining().unref();
        assert(all.to_set() == self.writers@.dom() && all.no_duplicates());
        for id in it: keys
            invariant
                ids@ == it.seq().take(it.index()).unref(),
                it.seq().unref() == all,
        {
            ids.push(*id);
            assert(it.seq().take(it.index() + 1).unref() =~= it.seq().take(it.index()).unref().push(
                *id,
            ));
        }
        assert(ids@ =~= all);
        ids
    }

    /// A broadcast to every client the daemon writes to, each once. It
    /// drops no client: a failed write only ends it.
    pub fn broadcast_plan(&self) -> (b: Broadcast)
        ensures
            b.targets().to_set() == self.writer_ids(),
            b.targets().no_duplicates(),
            b.handed() == 0,
            !b.stopped(),
    {
        Broadcast::new(self.ids())
    }

    /// The request streams, to be polled for the next request.
    pub fn readers(&mut self) -> (r: &mut StreamMap<u64, ClientReader>)
        ensures
            reader_keys(*r) == old(self).reader_keys(),
            final(self).reader_keys() == reader_keys(*final(r)),
            final(self).writer_ids() == old(self).writer_ids(),
            forall|id: u64| #[trigger] final(self).writer_of(id) == old(self).writer_of(id),
    {
        &mut self.readers
    }

    /// Handles what the request stream of client `id` yielded, and returns
    /// the client whose request is to be answered: bytes are a request from
    /// `id`; a failed read is passed over; a closed stream forgets the
    /// client.
    pub fn on_reader_event(&mut self, id: u64, event: ReaderEvent) -> (r: Option<u64>)
        ensures
            event is Request ==> r == Some(id),
            !(event is Request) ==> r is None,
            !(event is Closed) ==> final(self).reader_keys() == old(self).reader_keys()
                && final(self).writer_ids() == old(self).writer_ids(),
            !(event is Closed) ==> forall|k: u64| #[trigger] final(self).writer_of(k) == old(
                self,
            ).writer_of(k),
            event is Closed ==> final(self).reader_keys() == old(self).reader_keys().remove(id)
                && final(self).writer_ids() == old(self).writer_ids().remove(id),
            event is Closed && old(self).readers_distinct() ==> final(self).reader_ids() == old(
                self,
            ).reader_ids().remove(id),
            old(self).readers_distinct() ==> final(self).readers_distinct(),
            forall|other: u64|
                other != id ==> #[trigger] final(self).writer_of(other) == old(self).writer_of(
                    other,
                ),
    {
        match event {
            ReaderEvent::Request => Some(id),
            ReaderEvent::ReadFailed => None,
            ReaderEvent::Closed => {
                self.forget(id);
                None
            },
        }
    }

    /// Forgets the client `id`: its request stream and its socket.
    pub fn forget(&mut self, id: u64)
        ensures
            final(self).reader_keys() == old(self).reader_keys().remove(id),
            old(self).readers_distinct() ==> final(self).readers_distinct(),
            old(self).readers_distinct() ==> final(self).reader_ids() == old(
                self,
            ).reader_ids().remove(id),
            final(self).writer_ids() == old(self).writer_ids().remove(id),
            forall|other: u64|
                other != id ==> #[trigger] final(self).writer_of(other) == old(self).writer_of(
                    other,
                ),
    {
        broadcast use vstd::std_specs::hash::group_hash_axioms;

        readers_remove(&mut self.readers, id);
        self.writers.remove(&id);
    }

    /// Concludes a write of a snapshot to the client `id`: a client whose
    /// write failed is forgotten; otherwise nothing changes.
    pub fn finish_send(&mut self, id: u64, written: bool)
        ensures
            written ==> final(self).reader_keys() == old(self).reader_keys(),
            written ==> final(self).writer_ids() == old(self).writer_ids(),
            written ==> forall|k: u64| #[trigger] final(self).writer_of(k) == old(self).writer_of(k),
            !written ==> final(self).reader_keys() == old(self).reader_keys().remove(id),
            !written && old(self).readers_distinct() ==> final(self).reader_ids() == old(
                self,
            ).reader_ids().remove(id),
            !written ==> final(self).writer_ids() == old(self).writer_ids().remove(id),
            old(self).readers_distinct() ==> final(self).readers_distinct(),
            forall|other: u64|
                other != id ==> #[trigger] final(self).writer_of(other) == old(self).writer_of(
                    other,
                ),
    {
        if !written {
            self.forget(id);
        }
    }
}

} // verus!
