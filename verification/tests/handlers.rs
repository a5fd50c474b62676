// A handler is a type that strong-ipc can feed messages to. These handlers split each
// message with the library's reader and hand it to their own dispatch method, as the
// generated impls do.
use std::marker::PhantomData;

use gluon_ipc::{Context, Credentials, DataReader, SendError};
use strong_ipc::{FdVec, Handler, UCred};

/// The descriptor type strong-ipc hands a handler.
type OwnedFd = <FdVec as IntoIterator>::Item;

fn assert_handler<T: Handler>() {}

fn context_of(creds: Option<UCred>) -> Context {
    Context::new(creds.map(|c| Credentials {
        pid: c.pid.as_raw_nonzero().get(),
        uid: c.uid.as_raw(),
        gid: c.gid.as_raw(),
    }))
}

// --- plain struct ---

#[derive(Debug)]
struct PlainHandler;

impl PlainHandler {
    async fn dispatch_one_way(
        &self,
        _code: u32,
        _data: DataReader<OwnedFd>,
        _ctx: Context,
    ) -> Result<(), SendError> {
        Ok(())
    }
}

impl Handler for PlainHandler {
    async fn handle(&self, data: &mut [u8], fds: FdVec, creds: Option<UCred>) {
        let Ok((code, reader)) = DataReader::from_wire(data, fds.into_vec()) else {
            return;
        };
        let _ = self.dispatch_one_way(code, reader, context_of(creds)).await;
    }
}

// --- generic struct (bounds on type param) ---

#[derive(Debug)]
struct GenericHandler<T: std::fmt::Debug + Send + Sync + 'static>(PhantomData<T>);

impl<T: std::fmt::Debug + Send + Sync + 'static> GenericHandler<T> {
    async fn dispatch_one_way(
        &self,
        _code: u32,
        _data: DataReader<OwnedFd>,
        _ctx: Context,
    ) -> Result<(), SendError> {
        Ok(())
    }
}

impl<T: std::fmt::Debug + Send + Sync + 'static> Handler for GenericHandler<T> {
    async fn handle(&self, data: &mut [u8], fds: FdVec, creds: Option<UCred>) {
        let Ok((code, reader)) = DataReader::from_wire(data, fds.into_vec()) else {
            return;
        };
        let _ = self.dispatch_one_way(code, reader, context_of(creds)).await;
    }
}

// --- generic struct (bounds in where clause) ---

#[derive(Debug)]
struct WhereHandler<T>(PhantomData<T>)
where
    T: std::fmt::Debug + Send + Sync + 'static;

impl<T> WhereHandler<T>
where
    T: std::fmt::Debug + Send + Sync + 'static,
{
    async fn dispatch_one_way(
        &self,
        _code: u32,
        _data: DataReader<OwnedFd>,
        _ctx: Context,
    ) -> Result<(), SendError> {
        Ok(())
    }
}

impl<T> Handler for WhereHandler<T>
where
    T: std::fmt::Debug + Send + Sync + 'static,
{
    async fn handle(&self, data: &mut [u8], fds: FdVec, creds: Option<UCred>) {
        let Ok((code, reader)) = DataReader::from_wire(data, fds.into_vec()) else {
            return;
        };
        let _ = self.dispatch_one_way(code, reader, context_of(creds)).await;
    }
}

#[test]
fn plain_handler_is_handler() {
    assert_handler::<PlainHandler>();
}

#[test]
fn generic_handler_is_handler() {
    assert_handler::<GenericHandler<u32>>();
}

#[test]
fn where_clause_handler_is_handler() {
    assert_handler::<WhereHandler<String>>();
}
