//! Stubs for the embedded-hal SPI traits.
use vstd::prelude::*;

use crate::error::TestError;
use crate::responses::{
    after_match, can_match, lemma_always_never_exhausts, next_result, replay, unlimited,
    will_return, Response, Returns,
};

verus! {

/// Relies on `Clone for Result`: the clone has the same variant, holding a clone of the value.
/// The SPI runner uses it to hand back exactly the result that was programmed.
pub assume_specification<T: Clone, E: Clone>[ <Result<T, E> as Clone>::clone ](
    r: &Result<T, E>,
) -> (res: Result<T, E>)
    ensures
        r.is_ok() <==> res.is_ok(),
        r.is_ok() ==> cloned::<T>(r->Ok_0, res->Ok_0),
        r.is_err() ==> cloned::<E>(r->Err_0, res->Err_0),
;

/// What an SPI operation hands back.
pub type SpiResult = Result<(), TestError>;

/// The responses of an operation that the test did not program: success on every call.
pub open spec fn unconfigured() -> Seq<Response<SpiResult>> {
    seq![unlimited(Ok(()))]
}

/// An operation left unprogrammed succeeds on every call, however many calls came before.
pub proof fn lemma_unconfigured_always_succeeds(k: nat)
    ensures
        can_match(replay(unconfigured(), k)),
        next_result(replay(unconfigured(), k)) == Ok::<(), TestError>(()),
{
    lemma_always_never_exhausts(Ok::<(), TestError>(()), k);
}

/// Entry point for stubbing the embedded-hal SPI traits: a builder that programs what each
/// operation returns. `go` then yields the `SpiStubRunner` that answers the calls.
#[derive(Debug)]
pub struct SpiStub {
    on_write: Returns<SpiResult>,
    on_write_iter: Returns<SpiResult>,
}

impl SpiStub {
    /// The responses programmed for `try_write`.
    pub closed spec fn write_responses(self) -> Seq<Response<SpiResult>> {
        self.on_write@
    }

    /// The responses programmed for `try_write_iter`.
    pub closed spec fn write_iter_responses(self) -> Seq<Response<SpiResult>> {
        self.on_write_iter@
    }

    /// Start programming a stub whose operations all succeed until told otherwise.
    pub fn arrange() -> (s: Self)
        ensures
            s.write_responses() == unconfigured(),
            s.write_iter_responses() == unconfigured(),
    {
        SpiStub {
            on_write: will_return(Ok(())).always(),
            on_write_iter: will_return(Ok(())).always(),
        }
    }

    /// Program the behaviour of `try_write`.
    pub fn try_write(self, values: Returns<SpiResult>) -> (s: Self)
        ensures
            s.write_responses() == values@,
            s.write_iter_responses() == self.write_iter_responses(),
    {
        SpiStub { on_write: values, ..self }
    }

    /// Program the behaviour of `try_write_iter`.
    pub fn try_write_iter(self, result: Returns<SpiResult>) -> (s: Self)
        ensures
            s.write_responses() == self.write_responses(),
            s.write_iter_responses() == result@,
    {
        SpiStub { on_write_iter: result, ..self }
    }

    /// Finish programming and return the runner that answers the calls.
    pub fn go(self) -> (r: SpiStubRunner)
        ensures
            r.write_responses() == self.write_responses(),
            r.write_iter_responses() == self.write_iter_responses(),
    {
        SpiStubRunner { on_write: self.on_write, on_write_iter: self.on_write_iter }
    }
}

/// Answers the SPI calls of a test from the responses programmed on a `SpiStub`.
#[derive(Debug)]
pub struct SpiStubRunner {
    on_write: Returns<SpiResult>,
    on_write_iter: Returns<SpiResult>,
}

impl SpiStubRunner {
    /// The responses left for `try_write`.
    pub closed spec fn write_responses(self) -> Seq<Response<SpiResult>> {
        self.on_write@
    }

    /// The responses left for `try_write_iter`.
    pub closed spec fn write_iter_responses(self) -> Seq<Response<SpiResult>> {
        self.on_write_iter@
    }

    /// Whether a call of `try_write` finds a response.
    pub fn can_write(&self) -> (r: bool)
        ensures
            r == can_match(self.write_responses()),
    {
        self.on_write.has_match()
    }

    /// Whether a call of `try_write_iter` finds a response.
    pub fn can_write_iter(&self) -> (r: bool)
        ensures
            r == can_match(self.write_iter_responses()),
    {
        self.on_write_iter.has_match()
    }

    /// Answer a blocking SPI write; the words written play no part in the answer.
    pub fn try_write(&mut self, _words: &[u8]) -> (r: SpiResult)
        requires
            can_match(old(self).write_responses()),
        ensures
            r == next_result(old(self).write_responses()),
            final(self).write_responses() == after_match(old(self).write_responses()),
            final(self).write_iter_responses() == old(self).write_iter_responses(),
    {
        self.on_write.get_match()
    }

    /// Answer a blocking SPI write from an iterator; the words play no part in the answer.
    pub fn try_write_iter<WI>(&mut self, _words: WI) -> (r: SpiResult)
        requires
            can_match(old(self).write_iter_responses()),
        ensures
            r == next_result(old(self).write_iter_responses()),
            final(self).write_iter_responses() == after_match(old(self).write_iter_responses()),
            final(self).write_responses() == old(self).write_responses(),
    {
        self.on_write_iter.get_match()
    }
}

} // verus!
