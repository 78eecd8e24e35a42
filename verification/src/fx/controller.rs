//! Drafting and confirming clips.

use crate::fx::creator::Creator;
use crate::fx::origin::MediaOrigin;
use crate::source::{read_to_end, read_to_end_allows, run_bytes, ReadStep, Source};
use vstd::prelude::*;

verus! {

/// Where in the chat platform a clip was asked for.
#[derive(Clone, Debug)]
pub struct DiscordOrigin {
    /// The guild in which the command was given, if it was given in one.
    pub guild: Option<u64>,
    /// The interaction that carried the command.
    pub interaction: u64,
    /// The member who gave the command, if known.
    pub author: Option<u64>,
    /// When the clip was drafted, in seconds since the epoch.
    pub drafted_at: i64,
}

/// The record of a clip: its name and description, who asked for it, and what it is cut from.
#[derive(Clone, Debug)]
pub struct Fx {
    /// The name by which the clip is played.
    pub name: String,
    /// What the clip is.
    pub description: String,
    /// Where in the chat platform the clip was asked for.
    pub discord: DiscordOrigin,
    /// What the clip is cut from.
    pub media: MediaOrigin,
}

/// Why a record was not added.
#[derive(Debug)]
pub enum RepositoryAddError {
    /// The repository failed; the text says how.
    IO(String),
    /// A record of that identity exists.
    AlreadyExists,
}

/// Why a record was not found.
#[derive(Debug)]
pub enum RepositoryGetError {
    /// The repository failed; the text says how.
    IO(String),
    /// No record has that identity.
    NotFound,
}

/// The identity of a clip's record: the guild, and the clip's name.
#[derive(Debug)]
pub struct FxIdentity(pub u64, pub String);

/// Where the records of clips are kept.
pub trait Repository {
    /// What keeping the draft `fx` may do to a repository that is `self` before it: leave it as
    /// `after` and answer `res`. Of a kind of repository that does not say it here nothing is
    /// said.
    open spec fn add_draft_allows(
        &self,
        after: &Self,
        fx: Fx,
        res: Result<(), RepositoryAddError>,
    ) -> bool {
        true
    }

    /// What keeping the confirmed record `fx` may do to a repository that is `self` before it.
    open spec fn add_allows(&self, after: &Self, fx: Fx, res: Result<(), RepositoryAddError>) -> bool {
        true
    }

    /// What looking up `identity` may do to a repository that is `self` before it.
    open spec fn get_allows(
        &self,
        after: &Self,
        identity: &FxIdentity,
        res: Result<Fx, RepositoryGetError>,
    ) -> bool {
        true
    }

    /// Keeps the record of a clip that is not confirmed yet.
    fn add_draft(&mut self, fx: Fx) -> (res: Result<(), RepositoryAddError>)
        ensures
            old(self).add_draft_allows(final(self), fx, res),
    ;

    /// Keeps the record of a confirmed clip.
    fn add(&mut self, fx: Fx) -> (res: Result<(), RepositoryAddError>)
        ensures
            old(self).add_allows(final(self), fx, res),
    ;

    /// The record of the confirmed clip with this identity.
    fn get(&mut self, identity: &FxIdentity) -> (res: Result<Fx, RepositoryGetError>)
        ensures
            old(self).get_allows(final(self), identity, res),
    ;
}

/// A clip that waits for its confirmation: the draft of its record, and all of its bytes.
pub struct PreviewingFx {
    /// All of the clip's bytes.
    pub media: Vec<u8>,
    /// The draft of the record.
    pub fx: Fx,
}

/// A confirmed clip: its record, and all of its bytes.
pub struct FxWithMedia(pub Fx, pub Vec<u8>);

/// Why the bytes of a clip could not be had.
#[derive(Debug)]
pub enum MediaError<CreateError, ReadError> {
    /// The pipeline could not be started.
    Create(CreateError),
    /// The pipeline failed while the clip was read.
    Read(ReadError),
}

/// Whether a pipeline that is `before` hands out the whole clip of `origin` in this way and is
/// `after` then: started for the origin it is `started` and hands out the stream `output`; the
/// stream is read to its end by the reads `steps`, is `ended` then, and the reading answers
/// `read`; and the pipeline takes the stream back. The clip is the bytes that the reads handed
/// over, and a read that failed is the failure.
pub open spec fn media_run<C: Creator>(
    before: C,
    after: C,
    origin: &MediaOrigin,
    res: Result<Vec<u8>, MediaError<C::Error, <C::Output as Source>::Error>>,
    started: C,
    output: C::Output,
    ended: C::Output,
    steps: Seq<ReadStep<C::Output>>,
    read: Result<usize, <C::Output as Source>::Error>,
) -> bool {
    &&& before.create_allows(&started, origin, Ok(output))
    &&& read_to_end_allows(output, ended, steps, Seq::empty(), run_bytes(steps), read)
    &&& started.finish_allows(&after, ended)
    &&& match res {
        Ok(media) => read is Ok && media@ == run_bytes(steps),
        Err(MediaError::Read(err)) => read == Err::<usize, <C::Output as Source>::Error>(err),
        Err(MediaError::Create(_)) => false,
    }
}

/// What handing out the whole clip of `origin` may do to a pipeline that is `before`: leave it
/// as `after` and answer `res`.
///
/// A pipeline that cannot be started answers with its error, and nothing else is done to it.
/// A pipeline that starts has its stream read to the end and gets the stream back, whether
/// the reading went well or not. The answer is then all the bytes that were read, or the
/// error of the read that failed.
pub open spec fn media_allows<C: Creator>(
    before: C,
    after: C,
    origin: &MediaOrigin,
    res: Result<Vec<u8>, MediaError<C::Error, <C::Output as Source>::Error>>,
) -> bool {
    match res {
        Err(MediaError::Create(err)) => before.create_allows(&after, origin, Err(err)),
        _ => exists|
            started: C,
            output: C::Output,
            ended: C::Output,
            steps: Seq<ReadStep<C::Output>>,
            read: Result<usize, <C::Output as Source>::Error>,
        | #[trigger] media_run(before, after, origin, res, started, output, ended, steps, read),
    }
}

/// Why a confirmed clip could not be handed out.
#[derive(Debug)]
pub enum GetFxError<C> {
    /// The record could not be had.
    Repository(RepositoryGetError),
    /// The bytes could not be had.
    Create(C),
}

/// Drafts clips and confirms them: a draft is only handed back for a preview, and a record
/// goes to the repository only when its clip is confirmed.
pub struct Controller<C: Creator, R: Repository> {
    creator: C,
    repository: R,
}

impl<C: Creator, R: Repository> Controller<C, R> {
    /// The pipeline that the clips come from.
    pub closed spec fn creator(&self) -> C {
        self.creator
    }

    /// The repository that keeps the confirmed records.
    pub closed spec fn repository(&self) -> R {
        self.repository
    }

    /// A controller over `creator` and `repository`.
    pub fn new(creator: C, repository: R) -> (controller: Self)
        ensures
            controller.creator() == creator,
            controller.repository() == repository,
    {
        Controller { creator, repository }
    }

    /// Reads the whole clip that `origin` identifies. The pipeline gets its stream back when
    /// the clip is read, and also when reading fails.
    fn read_media(&mut self, origin: &MediaOrigin) -> (res: Result<
        Vec<u8>,
        MediaError<C::Error, <C::Output as Source>::Error>,
    >)
        ensures
            final(self).repository() == old(self).repository(),
            media_allows(old(self).creator(), final(self).creator(), origin, res),
    {
        match self.creator.create(origin) {
            Ok(output) => {
                let ghost started = self.creator;
                let ghost handed_out = output;
                let mut output = output;
                let mut media: Vec<u8> = Vec::new();
                let read = read_to_end(&mut output, &mut media);
                let ghost ended = output;
                let ghost steps = choose|steps: Seq<ReadStep<C::Output>>| #[trigger]
                    read_to_end_allows(handed_out, ended, steps, Seq::empty(), media@, read);
                assert(media@ =~= run_bytes(steps));
                self.creator.finish(output);
                let res = match read {
                    Ok(_) => Ok(media),
                    Err(err) => Err(MediaError::Read(err)),
                };
                assert(media_run(
                    old(self).creator(),
                    self.creator(),
                    origin,
                    res,
                    started,
                    handed_out,
                    ended,
                    steps,
                    read,
                ));
                res
            },
            Err(err) => Err(MediaError::Create(err)),
        }
    }

    /// Drafts a clip: its bytes are created and handed back with the record, for a preview.
    /// The bytes are all that the pipeline's stream yields for the record's origin; a pipeline
    /// that cannot be started, or whose stream fails, is the error. Nothing goes to the
    /// repository.
    pub fn init_create_fx(&mut self, fx: Fx) -> (res: Result<
        PreviewingFx,
        MediaError<C::Error, <C::Output as Source>::Error>,
    >)
        ensures
            final(self).repository() == old(self).repository(),
            match res {
                Ok(preview) => {
                    &&& preview.fx == fx
                    &&& media_allows(
                        old(self).creator(),
                        final(self).creator(),
                        &fx.media,
                        Ok(preview.media),
                    )
                },
                Err(err) => media_allows(
                    old(self).creator(),
                    final(self).creator(),
                    &fx.media,
                    Err(err),
                ),
            },
    {
        match self.read_media(&fx.media) {
            Ok(media) => Ok(PreviewingFx { media, fx }),
            Err(err) => Err(err),
        }
    }

    /// Confirms a clip: its record goes to the repository, whose answer is handed back. The
    /// pipeline is left alone.
    pub fn confirm_create(&mut self, fx: Fx) -> (res: Result<(), RepositoryAddError>)
        ensures
            final(self).creator() == old(self).creator(),
            old(self).repository().add_allows(&final(self).repository(), fx, res),
    {
        self.repository.add(fx)
    }

    /// What the repository's answer to a lookup means for `get`: a record goes on to have its
    /// bytes created, a failure ends the request as a failure of the repository.
    pub fn on_record(found: Result<Fx, RepositoryGetError>) -> (res: Result<
        Fx,
        GetFxError<MediaError<C::Error, <C::Output as Source>::Error>>,
    >)
        ensures
            match found {
                Ok(fx) => res matches Ok(record) && record == fx,
                Err(err) => res matches Err(GetFxError::Repository(e)) && e == err,
            },
    {
        match found {
            Ok(fx) => Ok(fx),
            Err(err) => Err(GetFxError::Repository(err)),
        }
    }

    /// Hands out a confirmed clip: its record from the repository, and its bytes from the
    /// pipeline. The bytes are all that the pipeline's stream yields for the origin in the
    /// record; a pipeline that cannot be started, or whose stream fails, is the error. Where the
    /// repository has no record the pipeline is left alone.
    pub fn get(&mut self, identity: &FxIdentity) -> (res: Result<
        FxWithMedia,
        GetFxError<MediaError<C::Error, <C::Output as Source>::Error>>,
    >)
        ensures
            match res {
                Ok(FxWithMedia(fx, media)) => {
                    &&& old(self).repository().get_allows(
                        &final(self).repository(),
                        identity,
                        Ok(fx),
                    )
                    &&& media_allows(
                        old(self).creator(),
                        final(self).creator(),
                        &fx.media,
                        Ok(media),
                    )
                },
                Err(GetFxError::Repository(err)) => {
                    &&& old(self).repository().get_allows(
                        &final(self).repository(),
                        identity,
                        Err(err),
                    )
                    &&& final(self).creator() == old(self).creator()
                },
                Err(GetFxError::Create(err)) => exists|fx: Fx|
                    {
                        &&& #[trigger] old(self).repository().get_allows(
                            &final(self).repository(),
                            identity,
                            Ok(fx),
                        )
                        &&& media_allows(
                            old(self).creator(),
                            final(self).creator(),
                            &fx.media,
                            Err(err),
                        )
                    },
            },
    {
        let found = self.repository.get(identity);
        let ghost looked_up = self.repository;
        match Self::on_record(found) {
            Ok(fx) => {
                assert(old(self).repository().get_allows(&looked_up, identity, Ok(fx)));
                match self.read_media(&fx.media) {
                    Ok(media) => Ok(FxWithMedia(fx, media)),
                    Err(err) => Err(GetFxError::Create(err)),
                }
            },
            Err(err) => Err(err),
        }
    }
}

} // verus!
