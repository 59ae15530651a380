//! Codecs for what travels between scheduler and executors: the shuffle
//! nodes of a plan, file-format blobs, and actions.

use crate::error::{BallistaError, InternalFault};
use crate::serde::protobuf::parse_action;
use crate::serde::scheduler::{action_from_proto, Action, ActionView};
use std::marker::PhantomData;
use std::sync::Arc;
use vstd::prelude::*;

pub use crate::serde::logical::BallistaLogicalExtensionCodec;
pub use crate::serde::physical::BallistaPhysicalExtensionCodec;

pub mod engine;
pub mod extension;
pub mod file_formats;
pub mod logical;
pub mod physical;
pub mod protobuf;
pub mod scheduler;
pub mod wire;

verus! {

/// The action that the bytes of an action envelope stand for:
/// `Internal(MalformedAction)` where they are no envelope, and else what the
/// envelope converts to.
pub open spec fn decoded_action(bytes: Seq<u8>) -> Result<ActionView, BallistaError> {
    match parse_action(bytes) {
        None => Err(BallistaError::Internal(InternalFault::MalformedAction)),
        Some(m) => action_from_proto(m),
    }
}

/// Reads the action that a scheduler sent.
pub fn decode_protobuf(bytes: &[u8]) -> (r: Result<Action, BallistaError>)
    ensures
        r matches Ok(a) ==> decoded_action(bytes@) == Ok::<ActionView, BallistaError>(a@),
        r matches Err(e) ==> decoded_action(bytes@) == Err::<ActionView, BallistaError>(e),
{
    match protobuf::Action::decode(bytes) {
        Some(node) => Action::from_proto(&node),
        None => Err(BallistaError::Internal(InternalFault::MalformedAction)),
    }
}

/// One logical and one physical codec, for plans that are held as `T` and
/// `U`. The first two type parameters only say which representation of a
/// plan the pair is meant for. The codecs are the two of this library unless
/// `L` and `P` say otherwise: any two can stand in the pair.
#[derive(Debug)]
pub struct BallistaCodec<
    T,
    U,
    L: ?Sized = BallistaLogicalExtensionCodec,
    P: ?Sized = BallistaPhysicalExtensionCodec,
> {
    logical_extension_codec: Arc<L>,
    physical_extension_codec: Arc<P>,
    logical_plan_repr: PhantomData<T>,
    physical_plan_repr: PhantomData<U>,
}

impl<T, U, L: ?Sized, P: ?Sized> BallistaCodec<T, U, L, P> {
    /// The logical codec of the pair.
    pub closed spec fn logical(&self) -> Arc<L> {
        self.logical_extension_codec
    }

    /// The physical codec of the pair.
    pub closed spec fn physical(&self) -> Arc<P> {
        self.physical_extension_codec
    }

    /// The pair of the two codecs.
    pub fn new(logical_extension_codec: Arc<L>, physical_extension_codec: Arc<P>) -> (codec: Self)
        ensures
            codec.logical() == logical_extension_codec,
            codec.physical() == physical_extension_codec,
    {
        Self {
            logical_extension_codec,
            physical_extension_codec,
            logical_plan_repr: PhantomData,
            physical_plan_repr: PhantomData,
        }
    }

    /// The logical codec of the pair.
    pub fn logical_extension_codec(&self) -> (codec: &L)
        ensures
            codec == &*self.logical(),
    {
        &self.logical_extension_codec
    }

    /// The physical codec of the pair.
    pub fn physical_extension_codec(&self) -> (codec: &P)
        ensures
            codec == &*self.physical(),
    {
        &self.physical_extension_codec
    }
}

impl<T, U, L: ?Sized, P: ?Sized> Clone for BallistaCodec<T, U, L, P> {
    /// A pair that shares both codecs with this one.
    fn clone(&self) -> (codec: Self)
        ensures
            codec.logical() == self.logical(),
            codec.physical() == self.physical(),
    {
        Self {
            logical_extension_codec: self.logical_extension_codec.clone(),
            physical_extension_codec: self.physical_extension_codec.clone(),
            logical_plan_repr: PhantomData,
            physical_plan_repr: PhantomData,
        }
    }
}

impl<T, U> Default for BallistaCodec<T, U> {
    /// The pair of the default logical codec and the physical codec.
    fn default() -> (codec: Self)
        ensures
            codec.logical().codecs() == BallistaLogicalExtensionCodec::default_codecs(),
            *codec.physical() == (BallistaPhysicalExtensionCodec {  }),
    {
        Self {
            logical_extension_codec: Arc::new(BallistaLogicalExtensionCodec::default()),
            physical_extension_codec: Arc::new(BallistaPhysicalExtensionCodec {  }),
            logical_plan_repr: PhantomData,
            physical_plan_repr: PhantomData,
        }
    }
}

} // verus!
