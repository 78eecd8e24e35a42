//! The pipeline with the store in front of it.

use crate::fx::creator::Creator;
use crate::fx::origin::MediaOrigin;
use crate::fx::store::{allowed_put, Blobs, Store, StoreGetError, StorePutError};
use crate::ioutils::{
    lemma_first_tap_yields_what_was_read, lemma_first_tap_yields_what_was_read_to_the_end,
    tap_drain, TappableReader, Tapped, TappedView, TeeView,
};
use crate::source::{min_len, Cursor, Source};
use vstd::prelude::*;

verus! {

/// Why the cached pipeline handed out no stream.
#[derive(Debug)]
pub enum CachedCreatorError<StoreError, CreateError> {
    /// The store failed on the lookup. A broken cache is not passed over in silence.
    Cache(StoreError),
    /// The pipeline could not be started.
    Create(CreateError),
}

/// A clip that is being read from its pipeline for the first time, with the tap that rides along
/// and collects the bytes for the store.
pub struct Acquisition<R: Source> {
    reader: TappableReader<R>,
    tap: Tapped,
    key: String,
}

impl<R: Source> Acquisition<R> {
    /// The pipeline's stream, wrapped in its tee.
    pub closed spec fn reader(&self) -> TappableReader<R> {
        self.reader
    }

    /// The tap that collects the bytes for the store.
    pub closed spec fn tap(&self) -> Tapped {
        self.tap
    }

    /// The key under which the clip will be stored.
    pub closed spec fn key(&self) -> Seq<char> {
        self.key@
    }

    /// Whether nothing has been read yet: the tee has this one tap, and the tap holds nothing.
    pub open spec fn untouched(&self) -> bool {
        &&& self.reader()@ == TeeView::empty().attach()
        &&& self.tap()@ == (TappedView { id: 0, unread: Seq::empty(), connected: true })
    }

    /// The bytes that go to the store if the stream is given up now: those that the tap yields
    /// once its channel is closed.
    pub open spec fn collected(&self) -> Seq<u8> {
        tap_drain(self.tap()@, self.reader()@.close()).2
    }
}

/// What goes to the store is what the caller read: where the reads on a fresh clip yielded
/// `chunks`, none of them empty, the tap has collected exactly their bytes, in order. The same
/// holds where the caller went on to the read that yields no bytes, the end of the clip.
pub proof fn lemma_collected_is_what_was_read<R: Source>(
    acquisition: Acquisition<R>,
    chunks: Seq<Seq<u8>>,
)
    requires
        forall|i: int| 0 <= i < chunks.len() ==> (#[trigger] chunks[i]).len() > 0,
        acquisition.tap()@ == (TappedView { id: 0, unread: Seq::empty(), connected: true }),
        acquisition.reader()@ == TeeView::empty().attach().read_all(chunks)
            || acquisition.reader()@ == TeeView::empty().attach().read_all(
            chunks.push(Seq::empty()),
        ),
    ensures
        acquisition.collected() == chunks.flatten(),
{
    lemma_first_tap_yields_what_was_read(chunks);
    lemma_first_tap_yields_what_was_read_to_the_end(chunks);
}

/// The stream of a clip, from the store or fresh from the pipeline.
pub enum Media<R: Source> {
    /// The clip was in the store; these are its bytes.
    Cached(Cursor),
    /// The clip comes from the pipeline; reading drives the pipeline on.
    Fresh(Acquisition<R>),
}

impl<R: Source> Source for Media<R> {
    type Error = R::Error;

    /// A read on a stored clip hands over the next bytes of the blob and never fails. A read on
    /// a fresh clip is a read on the pipeline's stream through its tee, so that the tap gets a
    /// copy of what is read; key and tap stay as they are.
    open spec fn read_allows(
        &self,
        after: &Self,
        buf: Seq<u8>,
        filled: Seq<u8>,
        res: Result<usize, R::Error>,
    ) -> bool {
        match (*self, *after) {
            (Media::Cached(before), Media::Cached(after)) => {
                &&& res matches Ok(n)
                &&& n == min_len(buf.len() as int, before.remaining().len() as int)
                &&& filled == before.remaining().take(n as int) + buf.skip(n as int)
                &&& after.remaining() == before.remaining().skip(n as int)
            },
            (Media::Fresh(before), Media::Fresh(after)) => {
                &&& after.key() == before.key()
                &&& after.tap() == before.tap()
                &&& before.reader().read_allows(&after.reader(), buf, filled, res)
            },
            _ => false,
        }
    }

    /// Reads the next bytes of the clip.
    fn read(&mut self, buf: &mut [u8]) -> (res: Result<usize, R::Error>) {
        match self {
            Media::Cached(cursor) => Ok(cursor.read_slice(buf)),
            Media::Fresh(acquisition) => acquisition.reader.read(buf),
        }
    }
}

/// A pipeline with a cache in front: a clip that the store holds is read from the store, and a
/// clip that it does not hold is created once and stored while it is read.
pub struct CachedCreator<C: Creator, S: Store> {
    creator: C,
    store: S,
}

impl<C: Creator, S: Store> CachedCreator<C, S> {
    /// The pipeline behind the cache.
    pub closed spec fn creator(&self) -> C {
        self.creator
    }

    /// The store in front of the pipeline.
    pub closed spec fn store(&self) -> S {
        self.store
    }

    /// Puts `store` in front of `creator`.
    pub fn new(creator: C, store: S) -> (cached: Self)
        ensures
            cached.creator() == creator,
            cached.store() == store,
    {
        CachedCreator { creator, store }
    }

    /// What the store's answer to the lookup means: a blob is a hit and is streamed as it is;
    /// `NotFound` is a miss and no error; any other failure ends the request.
    pub fn on_lookup(found: Result<Vec<u8>, StoreGetError>) -> (res: Result<
        Option<Cursor>,
        StoreGetError,
    >)
        ensures
            match found {
                Ok(blob) => res matches Ok(Some(cursor)) && cursor.remaining() == blob@,
                Err(StoreGetError::NotFound) => res matches Ok(None),
                Err(StoreGetError::IO(err)) => res matches Err(StoreGetError::IO(e)) && e == err,
            },
    {
        match found {
            Ok(blob) => Ok(Some(Cursor::new(blob))),
            Err(StoreGetError::NotFound) => Ok(None),
            Err(StoreGetError::IO(err)) => Err(StoreGetError::IO(err)),
        }
    }

    /// What the pipeline's answer means: its stream is wrapped in a tee with one tap attached
    /// before anything is read, so that the tap sees every byte that the caller reads; its
    /// error is handed on.
    pub fn on_created(key: String, created: Result<C::Output, C::Error>) -> (res: Result<
        Acquisition<C::Output>,
        C::Error,
    >)
        ensures
            match created {
                Ok(output) => {
                    &&& res matches Ok(acquisition)
                    &&& acquisition.key() == key@
                    &&& acquisition.reader().source() == output
                    &&& acquisition.untouched()
                },
                Err(err) => res matches Err(e) && e == err,
            },
    {
        match created {
            Ok(output) => {
                let mut reader = TappableReader::new(output);
                let tap = reader.tap();
                Ok(Acquisition { reader, tap, key })
            },
            Err(err) => Err(err),
        }
    }

    /// Ends a stream and stores what its tap collected.
    ///
    /// For a clip that came from the store there is nothing to do. For a fresh one the tee is
    /// closed, the tap is read to its end, and the bytes go to the store under the clip's key:
    /// they are the bytes that the caller read, up to the first read that yielded none. A clip
    /// that another request stored meanwhile stays as it is, and the answer is `AlreadyExist`.
    /// The pipeline gets its stream back in either case.
    pub fn persist(&mut self, media: Media<C::Output>) -> (res: Result<(), StorePutError>)
        ensures
            match media {
                Media::Cached(_) => {
                    &&& res is Ok
                    &&& final(self).store() == old(self).store()
                    &&& final(self).creator() == old(self).creator()
                },
                Media::Fresh(acquisition) => {
                    &&& allowed_put(
                        old(self).store().contents(),
                        final(self).store().contents(),
                        acquisition.key(),
                        acquisition.collected(),
                        res,
                    )
                    &&& res matches Err(StorePutError::IO(_)) ==> old(self).store().fallible()
                    &&& old(self).creator().finish_allows(
                        &final(self).creator(),
                        acquisition.reader().source(),
                    )
                },
            },
    {
        match media {
            Media::Cached(_) => Ok(()),
            Media::Fresh(acquisition) => {
                let mut acquisition = acquisition;
                acquisition.reader.close_taps();
                let mut bytes: Vec<u8> = Vec::new();
                let _ = acquisition.tap.read_to_end(&mut acquisition.reader, &mut bytes);
                assert(bytes@ =~= Seq::<u8>::empty() + bytes@);
                let res = self.store.put(acquisition.key.as_str(), bytes.as_slice());
                self.creator.finish(acquisition.reader.into_inner());
                res
            },
        }
    }
}

impl<C: Creator, S: Store> Creator for CachedCreator<C, S> {
    type Output = Media<C::Output>;

    type Error = CachedCreatorError<StoreGetError, C::Error>;

    /// What `create` does, for every answer of the store and of the pipeline.
    ///
    /// A clip that the store holds under the origin's cache key is streamed from the store,
    /// unless the store fails, and the pipeline is left alone: a stored clip is never created
    /// again. A clip that the store does not hold is created by one start of the pipeline for
    /// this origin; the pipeline's stream is handed out wrapped and tapped and not yet read, and
    /// the pipeline's error is handed on. The store itself is not changed.
    open spec fn create_allows(
        &self,
        after: &Self,
        origin: &MediaOrigin,
        res: Result<Media<C::Output>, CachedCreatorError<StoreGetError, C::Error>>,
    ) -> bool {
        let key = origin.spec_cache_key();
        let stored = self.store().contents().contains_key(key);
        &&& after.store() == self.store()
        &&& match res {
            Ok(Media::Cached(cursor)) => {
                &&& stored
                &&& cursor.remaining() == self.store().contents()[key]
                &&& after.creator() == self.creator()
            },
            Ok(Media::Fresh(acquisition)) => {
                &&& !stored
                &&& acquisition.key() == key
                &&& acquisition.untouched()
                &&& self.creator().create_allows(
                    &after.creator(),
                    origin,
                    Ok(acquisition.reader().source()),
                )
            },
            Err(CachedCreatorError::Cache(err)) => {
                &&& err is IO
                &&& self.store().fallible()
                &&& after.creator() == self.creator()
            },
            Err(CachedCreatorError::Create(err)) => {
                &&& !stored
                &&& self.creator().create_allows(&after.creator(), origin, Err(err))
            },
        }
    }

    /// What `finish` does: as `persist`, with the store's answer dropped. A stored clip changes
    /// nothing. Of a fresh clip what the tap collected is put to the store under the clip's
    /// key: the store has an answer to that `put`, which is a failure of the medium only where
    /// the medium can fail, and holds afterwards what the answer says. And the pipeline has its
    /// stream back.
    open spec fn finish_allows(&self, after: &Self, output: Media<C::Output>) -> bool {
        match output {
            Media::Cached(_) => after.store() == self.store() && after.creator() == self.creator(),
            Media::Fresh(acquisition) => {
                &&& exists|res: Result<(), StorePutError>|
                    {
                        &&& #[trigger] allowed_put(
                            self.store().contents(),
                            after.store().contents(),
                            acquisition.key(),
                            acquisition.collected(),
                            res,
                        )
                        &&& res matches Err(StorePutError::IO(_)) ==> self.store().fallible()
                    }
                &&& self.creator().finish_allows(&after.creator(), acquisition.reader().source())
            },
        }
    }

    /// Hands out the stream of the clip that `origin` identifies.
    fn create(&mut self, origin: &MediaOrigin) -> (res: Result<
        Media<C::Output>,
        CachedCreatorError<StoreGetError, C::Error>,
    >) {
        let key = origin.cache_key();
        let found = self.store.get(key.as_str());
        match Self::on_lookup(found) {
            Ok(Some(cursor)) => Ok(Media::Cached(cursor)),
            Ok(None) => {
                let created = self.creator.create(origin);
                match Self::on_created(key, created) {
                    Ok(acquisition) => Ok(Media::Fresh(acquisition)),
                    Err(err) => Err(CachedCreatorError::Create(err)),
                }
            },
            Err(err) => Err(CachedCreatorError::Cache(err)),
        }
    }

    /// Ends a stream as `persist` does. A clip that could not be stored is no failure of the
    /// stream: the caller has its bytes already, so the store's answer is dropped.
    fn finish(&mut self, output: Media<C::Output>) {
        let _ = self.persist(output);
    }
}

/// From end to end: where the caller of a fresh clip read `chunks`, none of them empty, with or
/// without the read at the end that yields no bytes, and the store took the clip, the store
/// holds under the clip's key exactly the bytes that the caller received.
pub proof fn lemma_stored_clip_is_what_was_read<R: Source>(
    acquisition: Acquisition<R>,
    chunks: Seq<Seq<u8>>,
    before: Blobs,
    after: Blobs,
)
    requires
        forall|i: int| 0 <= i < chunks.len() ==> (#[trigger] chunks[i]).len() > 0,
        acquisition.tap()@ == (TappedView { id: 0, unread: Seq::empty(), connected: true }),
        acquisition.reader()@ == TeeView::empty().attach().read_all(chunks)
            || acquisition.reader()@ == TeeView::empty().attach().read_all(
            chunks.push(Seq::empty()),
        ),
        allowed_put(before, after, acquisition.key(), acquisition.collected(), Ok(())),
    ensures
        after.contains_key(acquisition.key()),
        after[acquisition.key()] == chunks.flatten(),
{
    lemma_collected_is_what_was_read(acquisition, chunks);
}

/// A stored clip is never created again: where the store holds a clip under the origin's cache
/// key, `create` leaves the pipeline alone, and what it hands out, if the store does not fail,
/// is the stored clip, byte for byte.
pub proof fn lemma_stored_clip_is_served_from_the_store<C: Creator, S: Store>(
    before: CachedCreator<C, S>,
    after: CachedCreator<C, S>,
    origin: MediaOrigin,
    res: Result<Media<C::Output>, CachedCreatorError<StoreGetError, C::Error>>,
)
    requires
        before.store().contents().contains_key(origin.spec_cache_key()),
        before.create_allows(&after, &origin, res),
    ensures
        after.creator() == before.creator(),
        after.store() == before.store(),
        res matches Ok(media) ==> media matches Media::Cached(cursor) && cursor.remaining()
            == before.store().contents()[origin.spec_cache_key()],
        res matches Err(err) ==> err is Cache && before.store().fallible(),
{
}

} // verus!
