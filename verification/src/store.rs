//! Saving and loading a generation, as far as bytes go.
//!
//! The file itself is the caller's business. To save, the caller writes the
//! bytes that [`write_encrypted_dat`] returns, replacing the file as a whole.
//! To load, the caller says what it found at the path and
//! [`read_encrypted_dat`] decides: a file is opened and decoded; a missing
//! file is the occasion to create one with the default generation, which the
//! caller writes and then confirms with [`complete_bootstrap`]; a file that
//! cannot be read is an error.
//!
//! Nothing here keeps two processes apart that write the same path: whoever
//! replaces the file last wins.

use crate::cache::{SettingsCache, store_settings_in_global_state};
use crate::cipher::{AES_IV, bytes_view, open, opened, seal, sealed};
use crate::codec::{
    decode, encode, lemma_record_bytes_of_parse, parse_record, record_bytes, triple_view,
};
use crate::error::DatError;
use crate::record::{Event, Header, HeaderView, RecordView, Settings, SettingsView, record_view};
use vstd::prelude::*;

verus! {

/// What the caller found at the store's path.
#[derive(Debug, Clone, PartialEq, Eq)]
pub enum FileState {
    /// No file exists there.
    Absent,
    /// Something is there, but reading it failed.
    Unreadable,
    /// The file, read to its end.
    Present(Vec<u8>),
}

/// A store that is about to be created: the default generation and the file
/// that holds it.
#[derive(Debug, Clone, PartialEq, Eq)]
pub struct Bootstrap {
    pub header: Header,
    pub events: Vec<Event>,
    pub settings: Settings,
    /// The bytes to write at the store's path.
    pub file: Vec<u8>,
}

/// How far a load has come.
#[derive(Debug, Clone, PartialEq, Eq)]
pub enum LoadStep {
    /// The file held this generation; the cache now holds its settings.
    Loaded(Header, Vec<Event>, Settings),
    /// There was no file. Write `file`, then call [`complete_bootstrap`].
    Bootstrap(Bootstrap),
}

/// The generation that a store starts with.
pub open spec fn default_record() -> RecordView {
    RecordView {
        header: HeaderView {
            version: 1,
            event_count: 0,
            timestamp_resolution: 1000,
            size: 9,
            record_type: 0,
            cipher_key: AES_IV@,
        },
        events: Seq::empty(),
        settings: SettingsView { websocket_port: 8080, http_port: 8000, host: "127.0.0.1"@ },
    }
}

/// The file that holds `record` under `key`: its framing, sealed.
pub open spec fn saved(record: RecordView, key: Seq<u8>) -> Result<Seq<u8>, DatError> {
    sealed(key, record_bytes(record))
}

/// The generation that `file` holds under `key`: what it opens and then
/// decodes to, or the error of the step that failed.
pub open spec fn loaded(file: Seq<u8>, key: Seq<u8>) -> Result<RecordView, DatError> {
    match opened(key, file) {
        Ok(plaintext) => match parse_record(plaintext) {
            Some(record) => Ok(record),
            None => Err(DatError::FramingError),
        },
        Err(e) => Err(e),
    }
}

/// What a load comes to, given what was found at the path.
pub open spec fn load_outcome(file: FileState, key: Seq<u8>) -> Result<RecordView, DatError> {
    match file {
        FileState::Absent => match saved(default_record(), key) {
            Ok(_) => Ok(default_record()),
            Err(e) => Err(e),
        },
        FileState::Unreadable => Err(DatError::IOError),
        FileState::Present(bytes) => loaded(bytes@, key),
    }
}

/// A load of a file that is there fails only in the cipher or in the
/// framing: under a key of 16 bytes it gives a generation, a `PaddingError`
/// or a `FramingError`; under any other key it gives a `KeyError`.
pub proof fn lemma_load_fails_in_cipher_or_framing(file: Seq<u8>, key: Seq<u8>)
    ensures
        key.len() == 16 ==> loaded(file, key) is Ok || loaded(file, key) == Err::<
            RecordView,
            DatError,
        >(DatError::PaddingError) || loaded(file, key) == Err::<RecordView, DatError>(
            DatError::FramingError,
        ),
        key.len() != 16 ==> loaded(file, key) == Err::<RecordView, DatError>(DatError::KeyError),
{
}

/// A file loads to a generation only if it opens to exactly the framing of
/// that generation: nothing is skipped, and nothing may trail it.
pub proof fn lemma_loaded_is_framed(file: Seq<u8>, key: Seq<u8>)
    requires
        loaded(file, key) is Ok,
    ensures
        loaded(file, key)->Ok_0.wf(),
        opened(key, file) == Ok::<Seq<u8>, DatError>(record_bytes(loaded(file, key)->Ok_0)),
{
    lemma_record_bytes_of_parse(opened(key, file)->Ok_0);
}

impl Bootstrap {
    /// The generation that the new store will hold.
    pub open spec fn record(self) -> RecordView {
        record_view(self.header, self.events@, self.settings)
    }
}

impl LoadStep {
    /// The generation that the load is about.
    pub open spec fn record(self) -> RecordView {
        match self {
            LoadStep::Loaded(header, events, settings) => record_view(header, events@, settings),
            LoadStep::Bootstrap(bootstrap) => bootstrap.record(),
        }
    }
}

/// The header of the default generation.
pub fn default_header() -> (header: Header)
    ensures
        header@ == default_record().header,
{
    Header {
        version: 1,
        event_count: 0,
        timestamp_resolution: 1000,
        size: 9,
        record_type: 0,
        cipher_key: AES_IV,
    }
}

/// The settings of the default generation.
pub fn default_settings() -> (settings: Settings)
    ensures
        settings@ == default_record().settings,
{
    Settings { websocket_port: 8080, http_port: 8000, host: "127.0.0.1".to_owned() }
}

/// The file that holds the given generation under `key`: its framing, sealed.
///
/// It fails only on a key that is not 16 bytes long, with `KeyError`. The file
/// it returns loads back, under the same key, to exactly the generation that
/// was given.
pub fn write_encrypted_dat(
    header: &Header,
    events: &[Event],
    settings: &Settings,
    key: &[u8],
) -> (r: Result<Vec<u8>, DatError>)
    ensures
        bytes_view(r) == saved(record_view(*header, events@, *settings), key@),
        r matches Ok(file) ==> loaded(file@, key@) == Ok::<RecordView, DatError>(
            record_view(*header, events@, *settings),
        ),
{
    let plaintext = encode(header, events, settings);
    seal(plaintext.as_slice(), key)
}

/// Loads the store from what was found at its path.
///
/// A file that is present is opened under `aes_key` and decoded. Either step
/// may fail, with the cipher's or the framing's error; on success the cache
/// takes the settings and the generation is returned. A file that is absent
/// is no error: the default generation is returned together with the file to
/// create, and the cache is left alone until [`complete_bootstrap`] hears
/// that the file was written. A file that could not be read is an `IOError`.
/// Whenever an error is returned, the cache is as it was.
pub fn read_encrypted_dat(
    file: FileState,
    aes_key: &[u8],
    cache: &mut SettingsCache,
) -> (r: Result<LoadStep, DatError>)
    ensures
        match load_outcome(file, aes_key@) {
            Ok(record) => r matches Ok(step) && step.record() == record,
            Err(e) => r == Err::<LoadStep, DatError>(e),
        },
        r matches Ok(LoadStep::Loaded(_, _, settings)) ==> file is Present && final(cache)@
            == Some(settings@),
        r matches Ok(LoadStep::Bootstrap(bootstrap)) ==> file is Absent && final(cache)@ == old(
            cache,
        )@ && Ok::<Seq<u8>, DatError>(bootstrap.file@) == saved(default_record(), aes_key@)
            && loaded(bootstrap.file@, aes_key@) == Ok::<RecordView, DatError>(default_record()),
        r is Err ==> final(cache)@ == old(cache)@,
{
    match file {
        FileState::Absent => {
            let header = default_header();
            let events: Vec<Event> = Vec::new();
            let settings = default_settings();
            match write_encrypted_dat(&header, events.as_slice(), &settings, aes_key) {
                Ok(file) => {
                    assert(events@ =~= default_record().events);
                    Ok(LoadStep::Bootstrap(Bootstrap { header, events, settings, file }))
                },
                Err(e) => Err(e),
            }
        },
        FileState::Unreadable => Err(DatError::IOError),
        FileState::Present(bytes) => {
            let plaintext = match open(bytes.as_slice(), aes_key) {
                Ok(plaintext) => plaintext,
                Err(e) => {
                    return Err(e);
                },
            };
            match decode(plaintext.as_slice()) {
                Ok((header, events, settings)) => {
                    store_settings_in_global_state(cache, settings.duplicate());
                    Ok(LoadStep::Loaded(header, events, settings))
                },
                Err(e) => Err(e),
            }
        },
    }
}

/// Ends a bootstrap once the caller has tried to write the new store's file.
///
/// If the file was written, the load has succeeded: the cache takes the
/// default settings and the default generation is returned. If it was not,
/// the load fails with `IOError` and the cache is as it was.
pub fn complete_bootstrap(
    bootstrap: Bootstrap,
    written: bool,
    cache: &mut SettingsCache,
) -> (r: Result<(Header, Vec<Event>, Settings), DatError>)
    ensures
        r is Ok <==> written,
        r matches Ok(triple) ==> triple_view(triple) == bootstrap.record() && final(cache)@
            == Some(bootstrap.settings@),
        r matches Err(e) ==> e == DatError::IOError && final(cache)@ == old(cache)@,
{
    if written {
        store_settings_in_global_state(cache, bootstrap.settings.duplicate());
        Ok((bootstrap.header, bootstrap.events, bootstrap.settings))
    } else {
        Err(DatError::IOError)
    }
}

} // verus!
