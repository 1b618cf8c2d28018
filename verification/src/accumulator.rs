//! The hash accumulator that the rewrite feeds.
use crate::model::{BinOp, Feed};
use std::hash::Hasher;
use vstd::prelude::*;

verus! {

/// Something that takes, one after the other, the names and operators that a
/// rewrite comes across.
pub trait Accumulator {
    /// All that was fed so far, oldest first.
    spec fn fed(&self) -> Seq<Feed>;

    /// Feeds the contents of a name.
    fn feed_name(&mut self, name: &str)
        ensures
            final(self).fed() == old(self).fed().push(Feed::Name(name@)),
    ;

    /// Feeds an operator.
    fn feed_op(&mut self, op: BinOp)
        ensures
            final(self).fed() == old(self).fed().push(Feed::Op(op)),
    ;
}

/// One thing that a [`Recorder`] was fed.
#[derive(Debug, PartialEq, Eq)]
pub enum Fed {
    Name(String),
    Op(BinOp),
}

impl View for Fed {
    type V = Feed;

    open spec fn view(&self) -> Feed {
        match *self {
            Fed::Name(name) => Feed::Name(name@),
            Fed::Op(op) => Feed::Op(op),
        }
    }
}

/// An accumulator that keeps what it is fed, so that it can be looked at.
#[derive(Debug, PartialEq, Eq)]
pub struct Recorder {
    pub log: Vec<Fed>,
}

impl Recorder {
    /// A recorder that was fed nothing yet.
    pub fn new() -> (recorder: Self)
        ensures
            recorder.fed() == Seq::<Feed>::empty(),
    {
        let recorder = Recorder { log: Vec::new() };
        assert(recorder.fed() =~= Seq::<Feed>::empty());
        recorder
    }
}

impl Accumulator for Recorder {
    open spec fn fed(&self) -> Seq<Feed> {
        self.log@.map_values(|item: Fed| item@)
    }

    fn feed_name(&mut self, name: &str) {
        self.log.push(Fed::Name(name.to_owned()));
        assert(self.fed() =~= old(self).fed().push(Feed::Name(name@)));
    }

    fn feed_op(&mut self, op: BinOp) {
        self.log.push(Fed::Op(op));
        assert(self.fed() =~= old(self).fed().push(Feed::Op(op)));
    }
}

/// `Hash::hash` for a string slice: hands the contents of `name` to `state`.
/// What `state` makes of them is its own matter; nothing is stated of it.
#[verifier::external_body]
fn hash_name<H: Hasher>(name: &str, state: &mut H) {
    std::hash::Hash::hash(name, state)
}

/// `Hash::hash` for an operator, as `derive` wrote it: hands the operator to
/// `state`. What `state` makes of it is its own matter; nothing is stated of
/// it.
#[verifier::external_body]
fn hash_op<H: Hasher>(op: &BinOp, state: &mut H) {
    std::hash::Hash::hash(op, state)
}

/// An accumulator that hashes what it is fed with a hasher of the standard
/// library, and remembers, for the contracts alone, what that was.
pub struct Hashing<H: Hasher> {
    hasher: H,
    fed: Ghost<Seq<Feed>>,
}

impl<H: Hasher> Hashing<H> {
    /// Starts to feed `hasher`.
    pub fn new(hasher: H) -> (hashing: Self)
        ensures
            hashing.fed() == Seq::<Feed>::empty(),
            hashing.hasher() == hasher,
    {
        Hashing { hasher, fed: Ghost(Seq::empty()) }
    }

    /// Hands the hasher back, in the state that the feeding left it in.
    pub fn into_hasher(self) -> (hasher: H)
        ensures
            hasher == self.hasher(),
    {
        self.hasher
    }

    /// The hasher that is being fed, in the state that it is in. A feed may
    /// change it in any way that the hasher chooses.
    pub closed spec fn hasher(&self) -> H {
        self.hasher
    }
}

impl<H: Hasher> Accumulator for Hashing<H> {
    closed spec fn fed(&self) -> Seq<Feed> {
        self.fed@
    }

    fn feed_name(&mut self, name: &str) {
        hash_name(name, &mut self.hasher);
        self.fed = Ghost(self.fed@.push(Feed::Name(name@)));
    }

    fn feed_op(&mut self, op: BinOp) {
        hash_op(&op, &mut self.hasher);
        self.fed = Ghost(self.fed@.push(Feed::Op(op)));
    }
}

} // verus!
