//! A one-shot slot: a value is set once and taken once.
use vstd::prelude::*;

verus! {

/// Where a promise stands when it holds no value.
#[derive(Clone, Copy, Debug, PartialEq, Eq, Structural)]
pub enum Status {
    Waiting,
    Broken,
    Taken,
}

/// Why a promise refused to be set or read.
#[derive(Clone, Copy, Debug, PartialEq, Eq, Structural)]
pub enum Error {
    WrongState(Status),
    Poisoned,
    AlreadyFull,
}

/// A slot that holds either a value or the status it is in without one.
pub struct Promise<T> {
    slot: Result<T, Status>,
}

impl<T> Promise<T> {
    /// What the promise holds.
    pub closed spec fn view(&self) -> Result<T, Status> {
        self.slot
    }

    /// An empty promise, waiting for its value.
    pub fn new() -> (r: Self)
        ensures
            r.view() == Err::<T, Status>(Status::Waiting),
    {
        Promise { slot: Err(Status::Waiting) }
    }

    /// Puts `value` in a waiting promise. A full promise refuses with
    /// `AlreadyFull`, one that was taken or broken with its status.
    pub fn set(&mut self, value: T) -> (r: Result<(), Error>)
        ensures
            match old(self).view() {
                Err(Status::Waiting) => r == Ok::<(), Error>(()) && final(self).view() == Ok::<
                    T,
                    Status,
                >(value),
                Ok(_) => r == Err::<(), Error>(Error::AlreadyFull) && final(self).view() == old(
                    self,
                ).view(),
                Err(s) => r == Err::<(), Error>(Error::WrongState(s)) && final(self).view() == old(
                    self,
                ).view(),
            },
    {
        match &self.slot {
            Err(Status::Waiting) => {
                self.slot = Ok(value);
                Ok(())
            },
            Ok(_) => Err(Error::AlreadyFull),
            Err(status) => Err(Error::WrongState(*status)),
        }
    }

    /// Takes the value out of a full promise, which is then `Taken`.
    pub fn try_get(&mut self) -> (r: Result<T, Error>)
        ensures
            match old(self).view() {
                Ok(v) => r == Ok::<T, Error>(v) && final(self).view() == Err::<T, Status>(
                    Status::Taken,
                ),
                Err(s) => r == Err::<T, Error>(Error::WrongState(s)) && final(self).view() == old(
                    self,
                ).view(),
            },
    {
        let mut slot: Result<T, Status> = Err(Status::Taken);
        std::mem::swap(&mut slot, &mut self.slot);
        match slot {
            Ok(value) => Ok(value),
            Err(status) => {
                self.slot = Err(status);
                Err(Error::WrongState(status))
            },
        }
    }
}

} // verus!
