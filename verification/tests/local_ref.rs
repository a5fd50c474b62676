use std::sync::Arc;

use gluon_ipc::{Attachment, DataBuilder, HandledBy, Interface, LocalRef, RefExt, ToRef};
use strong_ipc::{FdVec, Handler, Node, Ref, UCred};

#[derive(Debug)]
struct Quiet(u32);

impl Handler for Quiet {
    async fn handle(&self, _data: &mut [u8], _fds: FdVec, _creds: Option<UCred>) {}
}

#[derive(Debug, PartialEq, Eq)]
struct Proxy(Ref);

impl ToRef for Proxy {
    fn to_ref(&self) -> Ref {
        self.0.clone()
    }
}
impl Interface for Proxy {
    const ID: &'static str = "test.Proxy";
}
impl RefExt for Proxy {
    fn from_ref(obj: Ref) -> Self {
        Proxy(obj)
    }
}
impl HandledBy<Quiet> for Proxy {}

fn runtime() -> tokio::runtime::Runtime {
    tokio::runtime::Builder::new_current_thread()
        .enable_all()
        .build()
        .unwrap()
}

#[test]
fn local_ref_pairs_proxy_and_handler() {
    runtime().block_on(async {
        let (node, node_ref) = Node::new(Quiet(5)).unwrap();
        let local = LocalRef::new(Proxy::from_ref(node_ref.clone()), node.handler().clone());
        assert!(local.proxy().0 == node_ref);
        assert!(Arc::ptr_eq(local.handler(), node.handler()));
        assert_eq!(local.0, 5);
        let again = local.clone();
        assert!(again == local);
        assert!(again.to_ref() == node_ref);
        assert!(Arc::ptr_eq(again.handler(), local.handler()));
        let proxy = local.into_proxy();
        assert!(proxy.0 == node_ref);
        assert_eq!(<Proxy as Interface>::ID, "test.Proxy");
    });
}

#[test]
fn written_ref_rides_as_an_attachment() {
    runtime().block_on(async {
        let (_node, node_ref) = Node::new(Quiet(0)).unwrap();
        let mut builder = DataBuilder::<u8>::new();
        builder.write_owned_fd(1).unwrap();
        builder.write_ref(&node_ref).unwrap();
        let frame = builder.finish(8);
        assert_eq!(frame.data(), &[8, 0, 0, 0]);
        assert_eq!(frame.attachments.len(), 2);
        assert!(matches!(frame.attachments[0], Attachment::Fd(1)));
        match &frame.attachments[1] {
            Attachment::Ref(r) => assert!(*r == node_ref),
            Attachment::Fd(_) => panic!("expected a ref"),
        }
    });
}
