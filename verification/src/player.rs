//! The transport state of one player: which file state is held (loaded or
//! empty), the cached duration, and the optional seek index. The
//! surrounding application owns the OS file handle and the audio output
//! device; this module decides every state transition and every
//! seek-index query, and says in its contracts exactly which error each
//! operation returns and when.

use vstd::prelude::*;

use crate::seek_index::SeekIndex;
use crate::seek_index::offset_at_or_before;
use crate::seek_index::time_at_or_before;

verus! {

/// The errors a player operation can return. All are locally
/// recoverable; no operation panics.
#[derive(Clone, Copy, Debug, PartialEq, Eq, Structural)]
pub enum PlayerError {
    UnableToCloneFileHandle,
    NoFileHandle,
    NoSeekIndex,
    NotAbleToSeek,
    UnableToCreateSeekIndex,
    UnableToGetDuration,
    UnableToOpenFile,
}

pub type PlayerResult<T> = Result<T, PlayerError>;

/// Files above this size (bytes) get no seek index: full-file analysis
/// cost must stay bounded, so large files stay playable but not
/// precisely seekable.
pub const MAX_FILE_SIZE_FOR_SEEK_INDEX: u64 = 1024 * 1024 * 50;

/// The state a player holds for the currently loaded file, if any.
/// A player is seekable iff a file is loaded and a seek index was built
/// for it; the index never outlives the file it indexes.
pub struct Player {
    file_loaded: bool,
    duration_ms: Option<u64>,
    seek_index: Option<SeekIndex>,
}

impl Player {
    /// A seek index is only ever held for a loaded file.
    #[verifier::type_invariant]
    spec fn wf(self) -> bool {
        self.seek_index is Some ==> self.file_loaded
    }

    /// Whether a file is loaded.
    pub closed spec fn spec_file_loaded(self) -> bool {
        self.file_loaded
    }

    /// The cached duration (milliseconds) of the loaded file, if analysis
    /// produced one.
    pub closed spec fn spec_duration(self) -> Option<u64> {
        self.duration_ms
    }

    /// The seek index built for the loaded file, if any.
    pub closed spec fn spec_seek_index(self) -> Option<SeekIndex> {
        self.seek_index
    }

    /// A player is seekable iff it holds both a file and a seek index.
    pub open spec fn spec_seekable(self) -> bool {
        self.spec_file_loaded() && self.spec_seek_index() is Some
    }

    /// A fresh player: no file, no duration, no index, not seekable.
    pub fn new() -> (r: Player)
        ensures
            !r.spec_file_loaded(),
            r.spec_duration() is None,
            r.spec_seek_index() is None,
            !r.spec_seekable(),
    {
        Player { file_loaded: false, duration_ms: None, seek_index: None }
    }

    pub fn is_file_loaded(&self) -> (r: bool)
        ensures
            r == self.spec_file_loaded(),
    {
        self.file_loaded
    }

    pub fn is_seekable(&self) -> (r: bool)
        ensures
            r == self.spec_seekable(),
    {
        self.file_loaded && self.seek_index.is_some()
    }

    pub fn duration(&self) -> (r: Option<u64>)
        ensures
            r == self.spec_duration(),
    {
        self.duration_ms
    }

    /// Returns the player to the empty state: duration, index and file
    /// state are all released. Idempotent; never fails.
    pub fn stop(&mut self)
        ensures
            !final(self).spec_file_loaded(),
            final(self).spec_duration() is None,
            final(self).spec_seek_index() is None,
            !final(self).spec_seekable(),
    {
        proof {
            use_type_invariant(&*self);
        }
        self.duration_ms = None;
        self.seek_index = None;
        self.file_loaded = false;
    }

    /// Whether a file of `file_size` bytes is small enough for seek-index
    /// construction.
    pub fn should_build_seek_index(file_size: u64) -> (r: bool)
        ensures
            r == (file_size <= MAX_FILE_SIZE_FOR_SEEK_INDEX),
    {
        file_size <= MAX_FILE_SIZE_FOR_SEEK_INDEX
    }

    /// Installs the outcome of loading a file of `file_size` bytes, after
    /// the prior state has been released and whatever analysis was run.
    ///
    /// `duration_ms` and `seek_index` are best-effort analysis results: a
    /// `None` downgrades capability and never fails the load.
    /// `handle_cloned` says whether the caller obtained its own handle on
    /// the file; without one the load fails and the player is left empty,
    /// so no partially acquired state is ever visible.
    ///
    /// The final state depends only on the arguments, never on the state
    /// held before: two sequential loads reflect only the second one. A
    /// file above the size ceiling never installs an index, whatever the
    /// analysis produced.
    pub fn finish_load(
        &mut self,
        file_size: u64,
        duration_ms: Option<u64>,
        seek_index: Option<SeekIndex>,
        handle_cloned: bool,
    ) -> (r: PlayerResult<()>)
        ensures
            handle_cloned ==> {
                &&& r is Ok
                &&& final(self).spec_file_loaded()
                &&& final(self).spec_duration() == duration_ms
                &&& final(self).spec_seek_index() == (if file_size
                    <= MAX_FILE_SIZE_FOR_SEEK_INDEX {
                    seek_index
                } else {
                    None::<SeekIndex>
                })
            },
            !handle_cloned ==> {
                &&& r == Err::<(), PlayerError>(PlayerError::UnableToCloneFileHandle)
                &&& !final(self).spec_file_loaded()
                &&& final(self).spec_duration() is None
                &&& final(self).spec_seek_index() is None
            },
    {
        self.stop();
        if !handle_cloned {
            return Err(PlayerError::UnableToCloneFileHandle);
        }
        self.file_loaded = true;
        self.duration_ms = duration_ms;
        if file_size <= MAX_FILE_SIZE_FOR_SEEK_INDEX {
            self.seek_index = seek_index;
        }
        Ok(())
    }

    /// Resolves a seek request to the byte offset the file cursor must be
    /// moved to: the floor lookup of `time_ms` over the index. Fails with
    /// `NoSeekIndex` iff the player holds no index.
    pub fn seek_target(&self, time_ms: u64) -> (r: PlayerResult<u64>)
        ensures
            match self.spec_seek_index() {
                Some(ix) => r == Ok::<u64, PlayerError>(offset_at_or_before(ix@, time_ms)),
                None => r == Err::<u64, PlayerError>(PlayerError::NoSeekIndex),
            },
    {
        match self.seek_index.as_ref() {
            Some(ix) => Ok(ix.offset_for_time(time_ms)),
            None => Err(PlayerError::NoSeekIndex),
        }
    }

    /// Translates the current byte position of the file cursor back to a
    /// playback time: the floor lookup of `cursor_offset` over the index.
    /// Fails with `NoFileHandle` iff no file is loaded, else with
    /// `NoSeekIndex` iff no index was built for it.
    pub fn elapsed_at(&self, cursor_offset: u64) -> (r: PlayerResult<u64>)
        ensures
            !self.spec_file_loaded() ==> r == Err::<u64, PlayerError>(PlayerError::NoFileHandle),
            self.spec_file_loaded() ==> match self.spec_seek_index() {
                Some(ix) => r == Ok::<u64, PlayerError>(time_at_or_before(ix@, cursor_offset)),
                None => r == Err::<u64, PlayerError>(PlayerError::NoSeekIndex),
            },
    {
        if !self.file_loaded {
            return Err(PlayerError::NoFileHandle);
        }
        match self.seek_index.as_ref() {
            Some(ix) => Ok(ix.time_for_offset(cursor_offset)),
            None => Err(PlayerError::NoSeekIndex),
        }
    }
}

} // verus!
