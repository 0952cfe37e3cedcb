//! The factory of the text service: what is asked of it, and what it answers.
use crate::globals::{dec_ref_count, inc_ref_count};
use vstd::prelude::*;

verus! {

/// The factory that makes the text service.
#[derive(Debug, Clone, Copy, PartialEq, Eq, Structural)]
pub struct ClassFactory;

/// Why the factory makes nothing.
#[derive(Debug, Clone, Copy, PartialEq, Eq, Structural)]
pub enum CreateError {
    /// There is no place for the result.
    NullPointer,
    /// The service cannot be part of another object.
    NoAggregation,
}

/// Why there is no factory.
#[derive(Debug, Clone, Copy, PartialEq, Eq, Structural)]
pub enum ClassError {
    /// A parameter is missing.
    Fail,
    /// The class is another one.
    NotAvailable,
}

impl ClassFactory {
    /// The factory.
    pub fn new() -> (r: Self)
        ensures
            r == ClassFactory,
    {
        ClassFactory
    }

    /// Whether the service can be made: there is a place for it, and it is to
    /// stand by itself.
    pub fn create_instance(&self, has_place: bool, has_outer: bool) -> (r: Result<(), CreateError>)
        ensures
            !has_place ==> r == Err::<(), CreateError>(CreateError::NullPointer),
            has_place && has_outer ==> r == Err::<(), CreateError>(CreateError::NoAggregation),
            has_place && !has_outer ==> r == Ok::<(), CreateError>(()),
    {
        if !has_place {
            Err(CreateError::NullPointer)
        } else if has_outer {
            Err(CreateError::NoAggregation)
        } else {
            Ok(())
        }
    }

    /// Counts the service as in use, or as no longer in use.
    pub fn lock_server(&self, count: &mut u32, lock: bool)
        ensures
            lock ==> *final(count) == (*old(count) + 1) % 0x1_0000_0000,
            !lock ==> *final(count) == (*old(count) - 1) % 0x1_0000_0000,
    {
        if lock {
            inc_ref_count(count);
        } else {
            dec_ref_count(count);
        }
    }
}

/// Whether there is a factory for a class: all parameters are there, and the
/// class is that of the text service.
pub fn get_class_object(has_place: bool, has_ids: bool, is_service: bool) -> (r: Result<
    ClassFactory,
    ClassError,
>)
    ensures
        !has_place || !has_ids ==> r == Err::<ClassFactory, ClassError>(ClassError::Fail),
        has_place && has_ids && !is_service ==> r == Err::<ClassFactory, ClassError>(
            ClassError::NotAvailable,
        ),
        has_place && has_ids && is_service ==> r == Ok::<ClassFactory, ClassError>(ClassFactory),
{
    if !has_place || !has_ids {
        Err(ClassError::Fail)
    } else if !is_service {
        Err(ClassError::NotAvailable)
    } else {
        Ok(ClassFactory::new())
    }
}

} // verus!
