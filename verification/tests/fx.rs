use hualib::fx::{
    Blobs, CachedCreator, CachedCreatorError, Controller, PutAction, Creator, DiscordOrigin, Fx, FxIdentity,
    FxWithMedia, GetFxError, IoError, IoErrorKind, LaunchNext, LaunchStep, LocalStore, Media,
    MediaError, MediaOrigin, MemoryStore, PutNext, PutStep, Repository, RepositoryAddError,
    RepositoryGetError, Store, StoreGetError, StorePutError, YoutubeDLCreateError,
    YoutubeDLCreator,
};
use hualib::source::{read_to_end, Cursor, Source};

fn origin(url: &str, start: u64, length: u64) -> MediaOrigin {
    MediaOrigin { url: url.to_string(), start, length }
}

/// A pipeline that hands out the same bytes for every origin and counts how often it ran.
struct Counting {
    clip: Vec<u8>,
    invocations: usize,
}

impl Creator for Counting {
    type Output = Cursor;
    type Error = String;

    fn create(&mut self, _origin: &MediaOrigin) -> Result<Cursor, String> {
        self.invocations += 1;
        Ok(Cursor::new(self.clip.clone()))
    }

    fn finish(&mut self, _output: Cursor) {}
}

/// A pipeline that counts its runs where the test can see them.
struct Shared<'a> {
    clip: Vec<u8>,
    invocations: &'a std::cell::Cell<usize>,
    finished: &'a std::cell::Cell<usize>,
}

impl<'a> Creator for Shared<'a> {
    type Output = Cursor;
    type Error = String;

    fn create(&mut self, _origin: &MediaOrigin) -> Result<Cursor, String> {
        self.invocations.set(self.invocations.get() + 1);
        Ok(Cursor::new(self.clip.clone()))
    }

    fn finish(&mut self, _output: Cursor) {
        self.finished.set(self.finished.get() + 1);
    }
}

/// A pipeline that cannot be started.
struct Broken;

impl Creator for Broken {
    type Output = Cursor;
    type Error = String;

    fn create(&mut self, _origin: &MediaOrigin) -> Result<Cursor, String> {
        Err("no such program".to_string())
    }

    fn finish(&mut self, _output: Cursor) {}
}

#[test]
fn cache_key_is_the_digest_of_the_canonical_bytes() {
    let origin = origin("X", 0, 5);
    let mut expected = b"X".to_vec();
    expected.extend_from_slice(&0u64.to_le_bytes());
    expected.extend_from_slice(&5u64.to_le_bytes());
    assert_eq!(origin.canonical_bytes(), expected);
    assert_eq!(origin.cache_key(), format!("{:?}", md5::compute(&expected)));
    assert_eq!(origin.cache_key().len(), 32);
}

#[test]
fn cache_key_of_known_input() {
    assert_eq!(hualib::digest::to_hex(&[0x00, 0x0f, 0xa5, 0xff]), "000fa5ff");
    assert_eq!(origin("", 0, 0).canonical_bytes(), vec![0u8; 16]);
    assert_eq!(origin("", 0, 0).cache_key(), "4ae71336e44bf9bf79d2752e234818a5");
}

#[test]
fn equal_origins_share_a_key_and_different_ones_do_not() {
    let base = origin("https://example.com/v", 3, 5);
    assert_eq!(base.cache_key(), origin("https://example.com/v", 3, 5).cache_key());
    assert_ne!(base.cache_key(), origin("https://example.com/w", 3, 5).cache_key());
    assert_ne!(base.cache_key(), origin("https://example.com/v", 4, 5).cache_key());
    assert_ne!(base.cache_key(), origin("https://example.com/v", 3, 6).cache_key());
    assert_ne!(origin("a", 1 << 40, 0).canonical_bytes(), origin("a", 0, 0).canonical_bytes());
}

#[test]
fn store_round_trip() {
    let mut store = MemoryStore::new();
    assert!(matches!(store.get("k"), Err(StoreGetError::NotFound)));
    assert!(store.put("k", b"some bytes").is_ok());
    assert_eq!(store.get("k").unwrap(), b"some bytes".to_vec());
    assert!(store.put("empty", b"").is_ok());
    assert_eq!(store.get("empty").unwrap(), Vec::<u8>::new());
}

#[test]
fn store_put_on_existing_key_is_refused() {
    let mut store = MemoryStore::new();
    assert!(store.put("k", b"first").is_ok());
    assert!(matches!(store.put("k", b"second"), Err(StorePutError::AlreadyExist)));
    assert_eq!(store.get("k").unwrap(), b"first".to_vec());
}

#[test]
fn miss_streams_the_pipeline_and_stores_the_clip() {
    let clip = b"the clip".to_vec();
    let mut cached = CachedCreator::new(Counting { clip: clip.clone(), invocations: 0 }, MemoryStore::new());
    let origin = origin("X", 0, 5);
    let mut media = cached.create(&origin).unwrap();
    assert!(matches!(media, Media::Fresh(_)));
    let mut received = vec![];
    assert_eq!(read_to_end(&mut media, &mut received), Ok(clip.len()));
    assert_eq!(received, clip);
    assert!(cached.persist(media).is_ok());

    let mut again = cached.create(&origin).unwrap();
    assert!(matches!(again, Media::Cached(_)));
    let mut stored = vec![];
    assert!(read_to_end(&mut again, &mut stored).is_ok());
    assert_eq!(stored, clip);
    assert!(cached.persist(again).is_ok());
}

#[test]
fn hit_does_not_run_the_pipeline_again() {
    let invocations = std::cell::Cell::new(0);
    let finished = std::cell::Cell::new(0);
    let creator = Shared { clip: b"the clip".to_vec(), invocations: &invocations, finished: &finished };
    let mut cached = CachedCreator::new(creator, MemoryStore::new());
    let origin = origin("X", 0, 5);
    let mut media = cached.create(&origin).unwrap();
    let mut received = vec![];
    assert!(read_to_end(&mut media, &mut received).is_ok());
    cached.finish(media);
    assert_eq!((invocations.get(), finished.get()), (1, 1));
    for _ in 0..3 {
        let mut again = cached.create(&origin).unwrap();
        let mut stored = vec![];
        assert!(read_to_end(&mut again, &mut stored).is_ok());
        assert_eq!(stored, b"the clip".to_vec());
        cached.finish(again);
    }
    assert_eq!((invocations.get(), finished.get()), (1, 1));
    let other = cached.create(&MediaOrigin { url: "X".to_string(), start: 1, length: 5 }).unwrap();
    assert!(matches!(other, Media::Fresh(_)));
    assert_eq!(invocations.get(), 2);
}

#[test]
fn abandoned_stream_stores_what_was_read() {
    let mut cached = CachedCreator::new(Counting { clip: b"abcdef".to_vec(), invocations: 0 }, MemoryStore::new());
    let origin = origin("X", 0, 5);
    let mut media = cached.create(&origin).unwrap();
    let mut buf = [0u8; 4];
    assert_eq!(media.read(&mut buf), Ok(4));
    assert!(cached.persist(media).is_ok());
    let mut again = cached.create(&origin).unwrap();
    let mut stored = vec![];
    assert!(read_to_end(&mut again, &mut stored).is_ok());
    assert_eq!(stored, b"abcd".to_vec());
}

#[test]
fn second_of_two_misses_finds_the_clip_stored() {
    let clip = b"the clip".to_vec();
    let mut cached = CachedCreator::new(Counting { clip: clip.clone(), invocations: 0 }, MemoryStore::new());
    let origin = origin("X", 0, 5);
    let mut first = cached.create(&origin).unwrap();
    let mut second = cached.create(&origin).unwrap();
    let mut first_bytes = vec![];
    let mut second_bytes = vec![];
    assert!(read_to_end(&mut first, &mut first_bytes).is_ok());
    assert!(read_to_end(&mut second, &mut second_bytes).is_ok());
    assert_eq!(first_bytes, clip);
    assert_eq!(second_bytes, clip);
    assert!(cached.persist(first).is_ok());
    assert!(matches!(cached.persist(second), Err(StorePutError::AlreadyExist)));
    let mut third = cached.create(&origin).unwrap();
    assert!(matches!(third, Media::Cached(_)));
    let mut stored = vec![];
    assert!(read_to_end(&mut third, &mut stored).is_ok());
    assert_eq!(stored, clip);
}

#[test]
fn pipeline_that_cannot_start_is_reported() {
    let mut cached = CachedCreator::new(Broken, MemoryStore::new());
    match cached.create(&origin("X", 0, 5)) {
        Err(CachedCreatorError::Create(why)) => assert_eq!(why, "no such program"),
        _ => panic!("expected the pipeline's error"),
    }
}

#[test]
fn lookup_outcomes() {
    type Cached = CachedCreator<Broken, MemoryStore>;
    assert!(matches!(Cached::on_lookup(Ok(b"x".to_vec())), Ok(Some(_))));
    assert!(matches!(Cached::on_lookup(Err(StoreGetError::NotFound)), Ok(None)));
    let broken = IoError { kind: IoErrorKind::Other, message: "disk".to_string() };
    assert!(matches!(Cached::on_lookup(Err(StoreGetError::IO(broken))), Err(StoreGetError::IO(_))));
}

#[test]
fn pipeline_arguments() {
    let origin = origin("https://example.com/v", 12, 5);
    assert_eq!(YoutubeDLCreator::fetch_program(), "youtube-dl");
    assert_eq!(YoutubeDLCreator::cut_program(), "ffmpeg");
    assert_eq!(
        YoutubeDLCreator::fetch_args(&origin),
        vec!["https://example.com/v", "-o", "-", "--audio-format", "best"]
    );
    assert_eq!(
        YoutubeDLCreator::cut_args(&origin),
        vec!["-ss", "12", "-t", "5", "-i", "-", "-f", "mp3", "-"]
    );
    assert_eq!(hualib::fx::creator::decimal(0), "0");
    assert_eq!(hualib::fx::creator::decimal(u64::MAX), "18446744073709551615");
}

#[test]
fn pipeline_launch_errors_name_their_stage() {
    let failure = || IoError { kind: IoErrorKind::NotFound, message: "missing".to_string() };
    assert_eq!(YoutubeDLCreator::create(), LaunchStep::Fetch);
    assert!(matches!(
        YoutubeDLCreator::create_next(LaunchStep::Fetch, Ok(())),
        LaunchNext::Do(LaunchStep::Cut)
    ));
    assert!(matches!(
        YoutubeDLCreator::create_next(LaunchStep::Fetch, Err(failure())),
        LaunchNext::Done(Err(YoutubeDLCreateError::YoutubeDL(_)))
    ));
    assert!(matches!(YoutubeDLCreator::create_next(LaunchStep::Cut, Ok(())), LaunchNext::Done(Ok(()))));
    assert!(matches!(
        YoutubeDLCreator::create_next(LaunchStep::Cut, Err(failure())),
        LaunchNext::Done(Err(YoutubeDLCreateError::FFmepg(_)))
    ));
}

#[test]
fn local_store_takes_cache_keys_only() {
    let key = origin("X", 0, 5).cache_key();
    assert!(LocalStore::is_key(&key));
    assert!(LocalStore::check_key(&key).is_ok());
    for text in [
        "",
        "abc",
        "4ae71336e44bf9bf79d2752e234818a5.part",
        "4AE71336E44BF9BF79D2752E234818A5",
        "4ae71336e44bf9bf79d2752e234818a",
        "4ae71336e44bf9bf79d2752e234818a5a",
        "../ae71336e44bf9bf79d2752e234818a",
        "4ae71336e44bf9bf79d2752e234818ag",
    ] {
        assert!(!LocalStore::is_key(text), "{:?}", text);
        assert!(matches!(
            LocalStore::check_key(text),
            Err(IoError { kind: IoErrorKind::NotFound, .. })
        ));
    }
}

#[test]
fn put_works_on_the_files_of_its_own_key() {
    let key = "4ae71336e44bf9bf79d2752e234818a5";
    let staging = "4ae71336e44bf9bf79d2752e234818a5.part";
    assert!(matches!(LocalStore::action(&PutStep::Probe, key), PutAction::Open(file) if file == key));
    assert!(matches!(LocalStore::action(&PutStep::Stage, key), PutAction::Write(file) if file == staging));
    assert!(matches!(
        LocalStore::action(&PutStep::Publish, key),
        PutAction::Link(from, to) if from == staging && to == key
    ));
    assert!(matches!(
        LocalStore::action(&PutStep::Discard(StorePutError::AlreadyExist), key),
        PutAction::Remove(file) if file == staging
    ));
}

#[test]
fn run_fails_with_its_first_failed_stage() {
    assert_eq!(YoutubeDLCreator::run_outcome(&[Some(0), Some(0)]), Ok(()));
    assert_eq!(YoutubeDLCreator::run_outcome(&[]), Ok(()));
    assert_eq!(YoutubeDLCreator::run_outcome(&[Some(0), Some(1)]), Err(1));
    assert_eq!(YoutubeDLCreator::run_outcome(&[None, Some(1)]), Err(0));
}

#[test]
fn local_store_decisions() {
    let missing = || IoError { kind: IoErrorKind::NotFound, message: "missing".to_string() };
    let exists = || IoError { kind: IoErrorKind::AlreadyExists, message: "exists".to_string() };
    let other = || IoError { kind: IoErrorKind::Other, message: "denied".to_string() };
    let store = LocalStore::new("fx");
    assert_eq!(store.dir(), "fx");
    let key = "4ae71336e44bf9bf79d2752e234818a5";
    assert_eq!(LocalStore::file_name(key), key);
    assert_eq!(LocalStore::staging_name(key), "4ae71336e44bf9bf79d2752e234818a5.part");
    assert!(matches!(LocalStore::is_file_exists(Ok(())), Ok(true)));
    assert!(matches!(LocalStore::is_file_exists(Err(missing())), Ok(false)));
    assert!(matches!(LocalStore::is_file_exists(Err(other())), Err(_)));
    assert!(matches!(LocalStore::get(Ok(b"x".to_vec())), Ok(blob) if blob == b"x".to_vec()));
    assert!(matches!(LocalStore::get(Err(missing())), Err(StoreGetError::NotFound)));
    assert!(matches!(LocalStore::get(Err(other())), Err(StoreGetError::IO(_))));

    assert!(matches!(LocalStore::put(), PutStep::Probe));
    assert!(matches!(
        LocalStore::put_next(PutStep::Probe, Ok(())),
        PutNext::Done(Err(StorePutError::AlreadyExist))
    ));
    assert!(matches!(LocalStore::put_next(PutStep::Probe, Err(missing())), PutNext::Do(PutStep::Stage)));
    assert!(matches!(
        LocalStore::put_next(PutStep::Probe, Err(other())),
        PutNext::Done(Err(StorePutError::IO(_)))
    ));
    assert!(matches!(LocalStore::put_next(PutStep::Stage, Ok(())), PutNext::Do(PutStep::Publish)));
    assert!(matches!(
        LocalStore::put_next(PutStep::Stage, Err(other())),
        PutNext::Do(PutStep::Discard(StorePutError::IO(_)))
    ));
    assert!(matches!(LocalStore::put_next(PutStep::Publish, Ok(())), PutNext::Done(Ok(()))));
    assert!(matches!(
        LocalStore::put_next(PutStep::Publish, Err(exists())),
        PutNext::Do(PutStep::Discard(StorePutError::AlreadyExist))
    ));
    assert!(matches!(
        LocalStore::put_next(PutStep::Discard(StorePutError::AlreadyExist), Ok(())),
        PutNext::Done(Err(StorePutError::AlreadyExist))
    ));
}

/// A repository that keeps its records in memory.
struct Records {
    drafts: Vec<Fx>,
    confirmed: Vec<Fx>,
}

impl Repository for Records {
    fn add_draft(&mut self, fx: Fx) -> Result<(), RepositoryAddError> {
        self.drafts.push(fx);
        Ok(())
    }

    fn add(&mut self, fx: Fx) -> Result<(), RepositoryAddError> {
        if self.confirmed.iter().any(|known| known.name == fx.name) {
            return Err(RepositoryAddError::AlreadyExists);
        }
        self.confirmed.push(fx);
        Ok(())
    }

    fn get(&mut self, identity: &FxIdentity) -> Result<Fx, RepositoryGetError> {
        self.confirmed
            .iter()
            .find(|known| known.name == identity.1)
            .cloned()
            .ok_or(RepositoryGetError::NotFound)
    }
}

fn record(name: &str) -> Fx {
    Fx {
        name: name.to_string(),
        description: "a cat".to_string(),
        discord: DiscordOrigin { guild: Some(7), interaction: 11, author: None, drafted_at: 0 },
        media: origin("X", 0, 5),
    }
}

#[test]
fn draft_is_previewed_and_stored_only_when_confirmed() {
    let creator = Counting { clip: b"the clip".to_vec(), invocations: 0 };
    let mut controller = Controller::new(creator, Records { drafts: vec![], confirmed: vec![] });
    let preview = controller.init_create_fx(record("meow")).unwrap();
    assert_eq!(preview.media, b"the clip".to_vec());
    assert_eq!(preview.fx.name, "meow");
    assert!(matches!(
        controller.get(&FxIdentity(7, "meow".to_string())),
        Err(GetFxError::Repository(RepositoryGetError::NotFound))
    ));
    assert!(controller.confirm_create(preview.fx).is_ok());
    assert!(matches!(controller.confirm_create(record("meow")), Err(RepositoryAddError::AlreadyExists)));
    let FxWithMedia(fx, media) = controller.get(&FxIdentity(7, "meow".to_string())).unwrap();
    assert_eq!(fx.name, "meow");
    assert_eq!(media, b"the clip".to_vec());
}

#[test]
fn controller_reports_a_pipeline_that_cannot_start() {
    let mut controller = Controller::new(Broken, Records { drafts: vec![], confirmed: vec![record("meow")] });
    assert!(matches!(controller.init_create_fx(record("purr")), Err(MediaError::Create(_))));
    assert!(matches!(
        controller.get(&FxIdentity(7, "meow".to_string())),
        Err(GetFxError::Create(MediaError::Create(_)))
    ));
}

#[test]
fn controller_over_the_cache_stores_what_it_read() {
    let cached = CachedCreator::new(Counting { clip: b"the clip".to_vec(), invocations: 0 }, MemoryStore::new());
    let mut controller = Controller::new(cached, Records { drafts: vec![], confirmed: vec![] });
    let first = controller.init_create_fx(record("meow")).unwrap();
    let second = controller.init_create_fx(record("meow")).unwrap();
    assert_eq!(first.media, b"the clip".to_vec());
    assert_eq!(second.media, b"the clip".to_vec());
}

/// A store whose medium is broken.
struct BrokenStore;

impl Store for BrokenStore {
    fn contents(&self) -> Blobs {
        unreachable!("the model of a store is never run")
    }

    fn get(&self, _key: &str) -> Result<Vec<u8>, StoreGetError> {
        Err(StoreGetError::IO(IoError { kind: IoErrorKind::Other, message: "disk".to_string() }))
    }

    fn put(&mut self, _key: &str, _data: &[u8]) -> Result<(), StorePutError> {
        Err(StorePutError::IO(IoError { kind: IoErrorKind::Other, message: "disk".to_string() }))
    }
}

#[test]
fn broken_store_ends_the_request_before_the_pipeline_runs() {
    let invocations = std::cell::Cell::new(0);
    let finished = std::cell::Cell::new(0);
    let creator = Shared { clip: b"the clip".to_vec(), invocations: &invocations, finished: &finished };
    let mut cached = CachedCreator::new(creator, BrokenStore);
    match cached.create(&origin("X", 0, 5)) {
        Err(CachedCreatorError::Cache(StoreGetError::IO(why))) => assert_eq!(why.message, "disk"),
        _ => panic!("expected the store's failure"),
    }
    assert_eq!(invocations.get(), 0);
}

/// A stream that breaks after its first bytes.
struct Breaking {
    served: bool,
}

impl Source for Breaking {
    type Error = String;

    fn read(&mut self, buf: &mut [u8]) -> Result<usize, String> {
        if self.served {
            return Err("pipeline crashed".to_string());
        }
        self.served = true;
        buf[..2].copy_from_slice(b"ab");
        Ok(2)
    }
}

/// A pipeline whose stream breaks.
struct Crashing;

impl Creator for Crashing {
    type Output = Breaking;
    type Error = String;

    fn create(&mut self, _origin: &MediaOrigin) -> Result<Breaking, String> {
        Ok(Breaking { served: false })
    }

    fn finish(&mut self, _output: Breaking) {}
}

#[test]
fn failure_in_the_middle_of_a_stream_is_a_failed_read() {
    let mut cached = CachedCreator::new(Crashing, MemoryStore::new());
    let origin = origin("X", 0, 5);
    let mut media = cached.create(&origin).unwrap();
    let mut received = vec![];
    assert_eq!(read_to_end(&mut media, &mut received), Err("pipeline crashed".to_string()));
    assert_eq!(received, b"ab".to_vec());
    assert!(cached.persist(media).is_ok());
    let mut again = cached.create(&origin).unwrap();
    let mut stored = vec![];
    assert!(read_to_end(&mut again, &mut stored).is_ok());
    assert_eq!(stored, b"ab".to_vec());

    let mut controller = Controller::new(Crashing, Records { drafts: vec![], confirmed: vec![] });
    assert!(matches!(
        controller.init_create_fx(record("meow")),
        Err(MediaError::Read(why)) if why == "pipeline crashed"
    ));
}
