//! A proxy paired with the handler behind it, for a node made in this process.
use crate::{HandledBy, RefExt, ToRef};
use std::ops::Deref;
use std::sync::Arc;
use strong_ipc::Ref;
use vstd::prelude::*;
use vstd::std_specs::cmp::{PartialEqSpec, PartialEqSpecImpl};

verus! {

/// A proxy paired with the handler behind it, for a node made in *this* process.
///
/// A plain proxy is a [`Ref`] and nothing else; this keeps both the proxy to send through
/// and the `Arc<H>` the node is already feeding. It derefs to the handler, so the
/// handler's own methods are reached bare and the interface's go through
/// [`LocalRef::proxy`].
///
/// **Do not store one of these in the handler it points at**: `Arc<H>` → `LocalRef` →
/// `Arc<H>` is a cycle and the handler never drops.
pub struct LocalRef<I, H> {
    proxy: I,
    handler: Arc<H>,
}

impl<I: RefExt + HandledBy<H>, H> LocalRef<I, H> {
    /// The proxy this pairs.
    pub closed spec fn proxy_view(self) -> I {
        self.proxy
    }

    /// The handler this pairs.
    pub closed spec fn handler_view(self) -> Arc<H> {
        self.handler
    }

    /// Pairs a proxy with the handler behind it.
    ///
    /// Nothing here checks that `proxy` actually leads to `handler`; the constructors
    /// that make the node are the ones that know.
    pub fn new(proxy: I, handler: Arc<H>) -> (l: Self)
        ensures
            l.proxy_view() == proxy,
            l.handler_view() == handler,
    {
        Self { proxy, handler }
    }

    /// The handler behind this proxy.
    pub fn handler(&self) -> (h: &Arc<H>)
        ensures
            *h == self.handler_view(),
    {
        &self.handler
    }

    /// The proxy, for calling this interface's methods and for anywhere a peer's ref goes.
    pub fn proxy(&self) -> (p: &I)
        ensures
            *p == self.proxy_view(),
    {
        &self.proxy
    }

    /// Drops the handler share and keeps the proxy.
    pub fn into_proxy(self) -> (p: I)
        ensures
            p == self.proxy_view(),
    {
        self.proxy
    }
}

impl<I: RefExt + HandledBy<H>, H> Deref for LocalRef<I, H> {
    type Target = Arc<H>;

    fn deref(&self) -> (h: &Arc<H>)
        ensures
            *h == self.handler_view(),
    {
        &self.handler
    }
}

/// Rebuilds the proxy from its ref rather than cloning it, so interfaces need no `Clone`.
impl<I: RefExt + HandledBy<H>, H> Clone for LocalRef<I, H> {
    fn clone(&self) -> (c: Self)
        ensures
            c.handler_view() == self.handler_view(),
            exists|r: Ref|
                call_ensures(I::to_ref, (&self.proxy_view(),), r) && call_ensures(
                    I::from_ref,
                    (r,),
                    c.proxy_view(),
                ),
    {
        let r = self.proxy.to_ref();
        let proxy = I::from_ref(r);
        assert(call_ensures(I::to_ref, (&self.proxy_view(),), r));
        assert(call_ensures(I::from_ref, (r,), proxy));
        Self { proxy, handler: self.handler.clone() }
    }
}

/// So a `LocalRef` goes straight into an untyped-ref parameter or
/// [`crate::DataBuilder::write_ref`].
impl<I: RefExt + HandledBy<H>, H: Send + Sync + 'static> ToRef for LocalRef<I, H> {
    /// The proxy's ref: what the proxy's own `to_ref` hands back.
    fn to_ref(&self) -> (r: Ref)
        ensures
            call_ensures(I::to_ref, (&self.proxy_view(),), r),
    {
        self.proxy.to_ref()
    }
}

/// Identity is the proxy's, which is the ref's: the handler share says nothing about
/// which node this is.
impl<I: RefExt + HandledBy<H> + PartialEq, H> PartialEq for LocalRef<I, H> {
    fn eq(&self, other: &Self) -> (r: bool)
        ensures
            I::obeys_eq_spec() ==> (r <==> self.proxy_view().eq_spec(&other.proxy_view())),
    {
        self.proxy == other.proxy
    }
}

impl<I: RefExt + HandledBy<H> + PartialEq, H> PartialEqSpecImpl for LocalRef<I, H> {
    open spec fn obeys_eq_spec() -> bool {
        I::obeys_eq_spec()
    }

    open spec fn eq_spec(&self, other: &Self) -> bool {
        self.proxy_view().eq_spec(&other.proxy_view())
    }
}

impl<I: RefExt + HandledBy<H> + Eq, H> Eq for LocalRef<I, H> {

}

/// Two `LocalRef`s are equal exactly when their proxies are: the handlers are not
/// compared, and proxies that differ make the pairs differ.
pub proof fn law_local_ref_equality_is_the_proxys<I: RefExt + HandledBy<H> + PartialEq, H>(
    a: LocalRef<I, H>,
    b: LocalRef<I, H>,
)
    ensures
        PartialEqSpec::eq_spec(&a, &b) <==> a.proxy_view().eq_spec(&b.proxy_view()),
        !a.proxy_view().eq_spec(&b.proxy_view()) ==> !PartialEqSpec::eq_spec(&a, &b),
{
}

} // verus!
