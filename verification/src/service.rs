//! What a service is to the core: one operation that takes a method's name
//! and an encoded argument.

use vstd::prelude::*;

verus! {

/// How a handler's call ended when it did not succeed.
#[derive(Debug, PartialEq, Eq)]
pub enum ServiceError {
    /// The service has no method of this name.
    NotImplemented(String),
    /// The method ran and failed.
    Failed,
}

/// The failure that a result reports, if it reports one.
pub open spec fn failure_of(result: Result<(), ServiceError>) -> Option<ServiceError> {
    match result {
        Ok(_) => None,
        Err(e) => Some(e),
    }
}

/// A handler: the application's implementation of one service.
///
/// The core reads neither the method's name nor the argument. What a call
/// does to the handler is the handler's own business, and `handled` is where
/// an implementation says so: the contracts of the registry speak of a call
/// through this relation alone.
pub trait UrpcService {
    /// Whether one call of `dispatch` with these arguments may take the
    /// handler from `self` to `next` and report `failure` (`None` for
    /// success). An implementation that states nothing admits every outcome.
    open spec fn handled(
        &self,
        method_name: Seq<char>,
        args: Seq<char>,
        next: &Self,
        failure: Option<ServiceError>,
    ) -> bool {
        true
    }

    /// Runs the named method on the encoded argument.
    fn dispatch(&mut self, method_name: String, args: String) -> (result: Result<
        (),
        ServiceError,
    >)
        ensures
            old(self).handled(method_name@, args@, final(self), failure_of(result)),
    ;
}

/// The service that implements no method: every call reports
/// `ServiceError::NotImplemented` with the name of the method that was asked
/// for, and changes nothing.
#[derive(Debug, Clone, Copy, PartialEq, Eq, Structural)]
pub struct DefaultUrpcService {}

impl UrpcService for DefaultUrpcService {
    open spec fn handled(
        &self,
        method_name: Seq<char>,
        args: Seq<char>,
        next: &Self,
        failure: Option<ServiceError>,
    ) -> bool {
        &&& *next == *self
        &&& failure matches Some(ServiceError::NotImplemented(name))
        &&& name@ == method_name
    }

    fn dispatch(&mut self, method_name: String, args: String) -> (result: Result<
        (),
        ServiceError,
    >) {
        Err(ServiceError::NotImplemented(method_name))
    }
}

} // verus!
