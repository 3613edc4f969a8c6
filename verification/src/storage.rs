//! Persistence of an aggregate: when to write it out, and what a read gives.
//!
//! An aggregate carries two flags. `dirty` says that it has changed since the
//! last snapshot was taken; `saving` says that a write is under way. At most
//! one write is under way at a time, and a request that finds one waits and
//! asks again.

use vstd::prelude::*;
use vstd::string::StringExecFns;

verus! {

/// How a request to save ended.
#[derive(Debug, Clone, Copy, PartialEq, Eq, Structural)]
pub enum StorageWrite {
    /// A snapshot was written.
    Successful,
    /// A write was under way: ask again.
    Retry,
    /// Nothing had changed.
    Unnecessary,
}

/// Why the storage or the remote source failed.
#[derive(Debug, Clone, Copy, PartialEq, Eq, Structural)]
pub enum Error {
    /// There is no stored document yet.
    NotFound,
    /// The stored document cannot be read back.
    Corrupt,
    /// The document could not be written.
    IoError,
    /// The remote source failed.
    RemoteFailure,
}

/// What a request to save has to do next.
#[derive(Debug, Clone, Copy, PartialEq, Eq, Structural)]
pub enum SaveStep {
    /// Write the snapshot, wait out the cooldown, then report `Successful`.
    Write,
    /// Wait out the cooldown, then report `Retry`.
    Wait,
    /// Report `Unnecessary` at once.
    Skip,
}

/// What the attempt to read a stored document gave.
#[derive(Debug)]
pub enum Stored<T> {
    /// The document could not be read.
    Missing,
    /// The document was read but is not a valid one.
    Unreadable,
    /// The document was read.
    Document(T),
}

/// The names under which the client files its documents on this machine.
#[derive(Debug)]
pub struct AppStrategyArgs {
    pub top_level_domain: String,
    pub author: String,
    pub app_name: String,
}

/// The names under which the client files its documents.
pub fn get_app_strategy_args() -> (args: AppStrategyArgs)
    ensures
        args.top_level_domain@ == "se"@,
        args.author@ == "ofcr"@,
        args.app_name@ == "Fluminurs Desktop"@,
{
    AppStrategyArgs {
        top_level_domain: String::from_str("se"),
        author: String::from_str("ofcr"),
        app_name: String::from_str("Fluminurs Desktop"),
    }
}

/// The step that a request to save takes, given the two flags.
pub open spec fn save_step(dirty: bool, saving: bool) -> SaveStep {
    if dirty && !saving {
        SaveStep::Write
    } else if dirty {
        SaveStep::Wait
    } else {
        SaveStep::Skip
    }
}

/// The aggregate after a request to save: a write takes the snapshot, which
/// clears `dirty` and sets `saving`; otherwise nothing changes.
pub open spec fn after_save<T: Storage>(aggregate: T) -> T {
    if save_step(aggregate.dirty(), aggregate.saving()) == SaveStep::Write {
        aggregate.with_flags(false, true)
    } else {
        aggregate
    }
}

/// How a request to save ends, once its step is done: a write either went
/// through or failed, a wait asks for another try, and a skip had nothing to
/// do.
pub fn save_outcome(step: SaveStep, written: bool) -> (outcome: Result<StorageWrite, Error>)
    ensures
        outcome == (match step {
            SaveStep::Write => if written {
                Ok::<StorageWrite, Error>(StorageWrite::Successful)
            } else {
                Err(Error::IoError)
            },
            SaveStep::Wait => Ok(StorageWrite::Retry),
            SaveStep::Skip => Ok(StorageWrite::Unnecessary),
        }),
{
    match step {
        SaveStep::Write => if written {
            Ok(StorageWrite::Successful)
        } else {
            Err(Error::IoError)
        },
        SaveStep::Wait => Ok(StorageWrite::Retry),
        SaveStep::Skip => Ok(StorageWrite::Unnecessary),
    }
}

/// What a read of the stored document amounts to: a document that is not
/// there is reported as not found, one that cannot be read back as corrupt.
pub fn loaded<T>(stored: Stored<T>) -> (aggregate: Result<T, Error>)
    ensures
        aggregate == (match stored {
            Stored::Missing => Err::<T, Error>(Error::NotFound),
            Stored::Unreadable => Err(Error::Corrupt),
            Stored::Document(document) => Ok(document),
        }),
{
    match stored {
        Stored::Missing => Err(Error::NotFound),
        Stored::Unreadable => Err(Error::Corrupt),
        Stored::Document(document) => Ok(document),
    }
}

/// The aggregate to go on with after a read: the one read, or `fallback`
/// where there was none or it was corrupt.
pub fn recovered<T>(loaded: Result<T, Error>, fallback: T) -> (aggregate: T)
    ensures
        aggregate == (match loaded {
            Ok(document) => document,
            Err(_) => fallback,
        }),
{
    match loaded {
        Ok(document) => document,
        Err(_) => fallback,
    }
}

/// An aggregate that is persisted as one document.
pub trait Storage: Sized {
    /// Whether the aggregate has changed since its last snapshot.
    spec fn dirty(&self) -> bool;

    /// Whether a write is under way.
    spec fn saving(&self) -> bool;

    /// The aggregate with its two flags set as given.
    spec fn with_flags(&self, dirty: bool, saving: bool) -> Self;

    /// The two flags are independent of each other and of the rest.
    proof fn lemma_flags(&self, dirty: bool, saving: bool, dirty2: bool, saving2: bool)
        ensures
            self.with_flags(dirty, saving).dirty() == dirty,
            self.with_flags(dirty, saving).saving() == saving,
            self.with_flags(dirty, saving).with_flags(dirty2, saving2) == self.with_flags(
                dirty2,
                saving2,
            ),
            self.with_flags(self.dirty(), self.saving()) == *self,
    ;

    /// The name of the file that holds the document.
    fn file_name() -> String;

    /// The `dirty` flag.
    fn get_dirty(&mut self) -> (flag: &mut bool)
        ensures
            *flag == old(self).dirty(),
            *final(self) == old(self).with_flags(*final(flag), old(self).saving()),
    ;

    /// The `saving` flag.
    fn get_saving(&mut self) -> (flag: &mut bool)
        ensures
            *flag == old(self).saving(),
            *final(self) == old(self).with_flags(old(self).dirty(), *final(flag)),
    ;

    /// Reads the `dirty` flag.
    fn is_dirty(&mut self) -> (r: bool)
        ensures
            r == old(self).dirty(),
            *final(self) == *old(self),
    {
        proof {
            self.lemma_flags(self.dirty(), self.saving(), self.dirty(), self.saving());
        }
        *self.get_dirty()
    }

    /// Reads the `saving` flag.
    fn is_saving(&mut self) -> (r: bool)
        ensures
            r == old(self).saving(),
            *final(self) == *old(self),
    {
        proof {
            self.lemma_flags(self.dirty(), self.saving(), self.dirty(), self.saving());
        }
        *self.get_saving()
    }

    /// Marks the start of a write, which takes the snapshot and so clears
    /// `dirty`, or its end.
    fn mark_saving(&mut self, saving: bool)
        ensures
            saving ==> *final(self) == old(self).with_flags(false, true),
            !saving ==> *final(self) == old(self).with_flags(old(self).dirty(), false),
    {
        let ghost before = *self;
        if saving {
            *self.get_dirty() = false;
            proof {
                before.lemma_flags(false, before.saving(), false, true);
            }
            *self.get_saving() = true;
        } else {
            *self.get_saving() = false;
        }
    }

    /// Decides what a request to save does. A changed aggregate with no write
    /// under way is written: the snapshot is taken here, so `dirty` is
    /// cleared and `saving` set. Otherwise nothing changes.
    fn save(&mut self) -> (step: SaveStep)
        ensures
            step == save_step(old(self).dirty(), old(self).saving()),
            step == SaveStep::Write ==> *final(self) == old(self).with_flags(false, true),
            step != SaveStep::Write ==> *final(self) == *old(self),
    {
        let dirty = self.is_dirty();
        if dirty && !self.is_saving() {
            self.mark_saving(true);
            SaveStep::Write
        } else if dirty {
            SaveStep::Wait
        } else {
            SaveStep::Skip
        }
    }

    /// Takes note of how a request to save ended. A write that went through
    /// or failed is over, so `saving` is cleared; a failed write does not
    /// mark the aggregate as changed again. A request that has to be tried
    /// again is made again, and its step is handed back.
    fn saved(&mut self, outcome: Result<StorageWrite, Error>) -> (next: Option<SaveStep>)
        ensures
            match outcome {
                Ok(StorageWrite::Retry) => {
                    &&& next == Some(save_step(old(self).dirty(), old(self).saving()))
                    &&& next == Some(SaveStep::Write) ==> *final(self) == old(self).with_flags(
                        false,
                        true,
                    )
                    &&& next != Some(SaveStep::Write) ==> *final(self) == *old(self)
                },
                Ok(StorageWrite::Unnecessary) => next is None && *final(self) == *old(self),
                _ => next is None && *final(self) == old(self).with_flags(
                    old(self).dirty(),
                    false,
                ),
            },
    {
        match outcome {
            Ok(StorageWrite::Retry) => Some(self.save()),
            Ok(StorageWrite::Unnecessary) => None,
            _ => {
                self.mark_saving(false);
                None
            },
        }
    }
}

/// Saving is debounced. A changed aggregate with no write under way is
/// written, and the write takes the snapshot. While that write is under way a
/// request finds nothing to do unless the aggregate has changed again, and
/// then it has to wait and ask again. Once the write is over, a request
/// without a change in between finds nothing to do.
pub proof fn lemma_save_debounced<T: Storage>(aggregate: T)
    requires
        aggregate.dirty(),
        !aggregate.saving(),
    ensures
        save_step(aggregate.dirty(), aggregate.saving()) == SaveStep::Write,
        after_save(aggregate) == aggregate.with_flags(false, true),
        save_step(after_save(aggregate).dirty(), after_save(aggregate).saving())
            == SaveStep::Skip,
        after_save(after_save(aggregate)) == after_save(aggregate),
        ({
            let changed = after_save(aggregate).with_flags(true, true);
            &&& save_step(changed.dirty(), changed.saving()) == SaveStep::Wait
            &&& after_save(changed) == changed
        }),
        ({
            let written = after_save(aggregate).with_flags(false, false);
            &&& save_step(written.dirty(), written.saving()) == SaveStep::Skip
            &&& after_save(written) == written
        }),
{
    aggregate.lemma_flags(false, true, true, true);
    aggregate.lemma_flags(false, true, false, false);
    aggregate.lemma_flags(true, true, false, false);
    aggregate.lemma_flags(false, false, false, false);
}

} // verus!
