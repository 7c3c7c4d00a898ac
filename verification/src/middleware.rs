//! Middleware records and the nested wrapper chain built around a route
//! handler: the first-registered middleware ends up outermost, the
//! last-registered innermost, directly around the handler.

use vstd::prelude::*;

verus! {

/// A middleware: the identifier of the callable that wraps a handler.
/// The callable itself lives outside the library.
#[derive(Clone, Copy, PartialEq, Eq, Structural)]
pub struct Middleware {
    pub handler: u64,
}

impl Middleware {
    /// A middleware around the given callable.
    pub fn new(handler: u64) -> (r: Middleware)
        ensures
            r.handler == handler,
    {
        Middleware { handler }
    }
}

/// The shape of a composed invocation: either the route handler itself,
/// or a middleware wrapped around the rest of the chain as its `next`.
pub enum ChainNode {
    Handler(u64),
    Wrap(u64, Box<ChainNode>),
}

/// The chain that a middleware list composes to, folded from the right:
/// the head of the list wraps everything after it.
pub open spec fn chain_spec(mws: Seq<Middleware>, handler: u64) -> ChainNode
    decreases mws.len(),
{
    if mws.len() == 0 {
        ChainNode::Handler(handler)
    } else {
        ChainNode::Wrap(mws[0].handler, Box::new(chain_spec(mws.drop_first(), handler)))
    }
}

/// An ordered list of middlewares around a route handler.
pub struct MiddlewareChain {
    pub middlewares: Vec<Middleware>,
}

impl MiddlewareChain {
    /// A chain over the given middlewares, in registration order.
    pub fn new(middlewares: Vec<Middleware>) -> (r: MiddlewareChain)
        ensures
            r.middlewares == middlewares,
    {
        MiddlewareChain { middlewares }
    }

    /// Builds the nested wrapper structure around `route_handler`:
    /// the last-registered middleware sits innermost, directly around the
    /// handler, and the first-registered outermost.
    pub fn build(&self, route_handler: u64) -> (r: ChainNode)
        ensures
            r == chain_spec(self.middlewares@, route_handler),
    {
        proof {
            assert(self.middlewares@.skip(0) =~= self.middlewares@);
        }
        self.build_from(route_handler, 0)
    }

    fn build_from(&self, route_handler: u64, index: usize) -> (r: ChainNode)
        requires
            index <= self.middlewares@.len(),
        ensures
            r == chain_spec(self.middlewares@.skip(index as int), route_handler),
        decreases self.middlewares@.len() - index,
    {
        let n = self.middlewares.len();
        if index >= n {
            proof {
                assert(self.middlewares@.skip(index as int).len() == 0);
            }
            return ChainNode::Handler(route_handler);
        }
        let next = self.build_from(route_handler, index + 1);
        proof {
            assert(self.middlewares@.skip(index as int).drop_first() =~= self.middlewares@.skip(
                index + 1,
            ));
            assert(self.middlewares@.skip(index as int)[0] == self.middlewares@[index as int]);
        }
        ChainNode::Wrap(self.middlewares[index].handler, Box::new(next))
    }
}

} // verus!
