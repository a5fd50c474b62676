//! Wire types for gluon: the byte layout of a message payload, the reader and
//! builder over it, and the small vocabulary of traits and errors around them.
//!
//! A message is `[u32 LE transaction code][payload bytes...]` plus an ordered list of
//! descriptors. Descriptors are matched to their slots positionally: the schema decides
//! how many are written and in what order, and the reader takes them in that order.

pub mod codegen_info;
pub mod data;
pub mod encoding;
mod external;
pub mod refs;
pub mod reply;
mod sealed;

pub use codegen_info::{Derives, ExternalGluonType, ExternalProtocol};
pub use refs::LocalRef;
pub use reply::REPLY_CODE;
pub use data::{Attachment, DataBuilder, DataReader, Frame, ReadError, WriteError};

use crate::sealed::Sealed;
use strong_ipc::{NodeError, Ref};
use vstd::prelude::*;
use vstd::std_specs::convert::{FromSpec, FromSpecImpl};

verus! {

/// Anything that can produce the ref that reaches it.
pub trait ToRef: Send + Sync + 'static {
    fn to_ref(&self) -> Ref;
}

/// `Ref::clone` (strong-ipc, derived): claims the clone is the same capability as the
/// original, which holds because it shares the original's `Arc`.
#[verifier::external_body]
fn clone_ref(r: &Ref) -> (c: Ref)
    ensures
        c == *r,
{
    r.clone()
}

impl ToRef for Ref {
    fn to_ref(&self) -> (r: Ref)
        ensures
            r == *self,
    {
        clone_ref(self)
    }
}

/// A generated proxy's interface, named by its id.
pub trait Interface: ToRef {
    const ID: &'static str;
}

/// Implemented for `T: Interface` and `Option<T: Interface>`.
pub trait OptionalInterfaceRef: Sealed {
    type InnerInterface: Interface + RefExt;

    const OPTIONAL: bool;
}

impl<I: Interface + RefExt> OptionalInterfaceRef for I {
    type InnerInterface = I;

    const OPTIONAL: bool = false;
}

impl<I: Interface + RefExt> OptionalInterfaceRef for Option<I> {
    type InnerInterface = I;

    const OPTIONAL: bool = true;
}

/// A proxy that can be rebuilt around a ref known to lead to its interface.
pub trait RefExt: Interface + Sized {
    /// Wraps a ref you already have.
    ///
    /// Only use this when you know the ref leads to something implementing this
    /// interface.
    fn from_ref(obj: Ref) -> Self;
}

/// An interface `H` can answer the methods of.
pub trait HandledBy<H>: Interface {

}

/// What the receiving side pulls out of the kernel's report of who sent a message:
/// the sender's process id and user and group ids.
#[derive(Debug, Clone, Copy, PartialEq, Eq, Structural, Hash)]
pub struct Credentials {
    pub pid: i32,
    pub uid: u32,
    pub gid: u32,
}

/// Who sent the transaction being handled, as reported by the kernel.
///
/// The credentials are an `Option` because a peer not going through this crate is not
/// obliged to supply them; a handler that gates on identity should treat `None` as
/// "unknown", never as "trusted".
#[derive(Debug, Clone, Copy, PartialEq, Eq, Structural, Hash)]
pub struct Context {
    creds: Option<Credentials>,
}

impl Context {
    /// The credentials this context reports.
    pub closed spec fn credentials(self) -> Option<Credentials> {
        self.creds
    }

    pub fn new(creds: Option<Credentials>) -> (c: Self)
        ensures
            c.credentials() == creds,
    {
        Self { creds }
    }

    pub fn creds(&self) -> (c: Option<Credentials>)
        ensures
            c == self.credentials(),
    {
        self.creds
    }

    pub fn sender_pid(&self) -> (p: Option<i32>)
        ensures
            p == match self.credentials() {
                Some(c) => Some(c.pid),
                None => None,
            },
    {
        match self.creds {
            Some(c) => Some(c.pid),
            None => None,
        }
    }

    pub fn sender_uid(&self) -> (u: Option<u32>)
        ensures
            u == match self.credentials() {
                Some(c) => Some(c.uid),
                None => None,
            },
    {
        match self.creds {
            Some(c) => Some(c.uid),
            None => None,
        }
    }

    pub fn sender_gid(&self) -> (g: Option<u32>)
        ensures
            g == match self.credentials() {
                Some(c) => Some(c.gid),
                None => None,
            },
    {
        match self.creds {
            Some(c) => Some(c.gid),
            None => None,
        }
    }
}

/// Why a transaction did not go through.
#[derive(Debug)]
pub enum SendError {
    /// The parameters could not be written.
    ParamWriteError(WriteError),
    /// The return values could not be read.
    ReturnReadError(ReadError),
    /// The peer is alive but behind: its socket buffer and outbound queue are both full,
    /// and the message was not delivered.
    Full,
    /// The peer is gone.
    Closed,
    /// The payload is over the size limit.
    TooLarge { size: usize },
    /// The reply object could not be created.
    Node(NodeError),
}

/// How a non-blocking send can fail, as plain values: the transport's own error also
/// hands the refused message back, of which only the payload size is kept here.
#[derive(Debug, Clone, Copy, PartialEq, Eq, Structural)]
pub enum SendFailure {
    Full,
    TooLarge { size: usize },
    Closed,
}

impl From<SendFailure> for SendError {
    fn from(f: SendFailure) -> (e: SendError) {
        match f {
            SendFailure::Full => SendError::Full,
            SendFailure::TooLarge { size } => SendError::TooLarge { size },
            SendFailure::Closed => SendError::Closed,
        }
    }
}

impl FromSpecImpl<SendFailure> for SendError {
    open spec fn obeys_from_spec() -> bool {
        true
    }

    open spec fn from_spec(f: SendFailure) -> SendError {
        match f {
            SendFailure::Full => SendError::Full,
            SendFailure::TooLarge { size } => SendError::TooLarge { size },
            SendFailure::Closed => SendError::Closed,
        }
    }
}

impl From<WriteError> for SendError {
    fn from(e: WriteError) -> (s: SendError)
        ensures
            s == SendError::ParamWriteError(e),
    {
        SendError::ParamWriteError(e)
    }
}

impl FromSpecImpl<WriteError> for SendError {
    open spec fn obeys_from_spec() -> bool {
        true
    }

    open spec fn from_spec(e: WriteError) -> SendError {
        SendError::ParamWriteError(e)
    }
}

impl From<ReadError> for SendError {
    fn from(e: ReadError) -> (s: SendError)
        ensures
            s == SendError::ReturnReadError(e),
    {
        SendError::ReturnReadError(e)
    }
}

impl FromSpecImpl<ReadError> for SendError {
    open spec fn obeys_from_spec() -> bool {
        true
    }

    open spec fn from_spec(e: ReadError) -> SendError {
        SendError::ReturnReadError(e)
    }
}

impl From<NodeError> for SendError {
    fn from(e: NodeError) -> (s: SendError)
        ensures
            s == SendError::Node(e),
    {
        SendError::Node(e)
    }
}

impl FromSpecImpl<NodeError> for SendError {
    open spec fn obeys_from_spec() -> bool {
        true
    }

    open spec fn from_spec(e: NodeError) -> SendError {
        SendError::Node(e)
    }
}

/// A node that could not be stood up surfaces as `SendError::Node`, carrying the node's
/// own error; a parameter that could not be written and a return value that could not be
/// read surface as theirs, each carrying its error.
pub proof fn law_send_error_keeps_its_cause(n: NodeError, w: WriteError, r: ReadError)
    ensures
        FromSpec::<NodeError>::from_spec(n) matches SendError::Node(m) && m == n,
        FromSpec::<WriteError>::from_spec(w) matches SendError::ParamWriteError(x) && x == w,
        FromSpec::<ReadError>::from_spec(r) matches SendError::ReturnReadError(x) && x == r,
{
}

} // verus!
