use vstd::prelude::*;

verus! {

/// The most nodes a walk visits, and the most steps one successor search
/// takes: a guard against corrupt links, far above any real music list.
pub const MAX_NODES: usize = 100_000;

/// Offsets in an MSVC `std::map` node: left child, parent, right child, and
/// the flag that marks the sentinel.
pub const NODE_LEFT: usize = 0x0;
pub const NODE_PARENT: usize = 0x4;
pub const NODE_RIGHT: usize = 0x8;
pub const NODE_ISNIL: usize = 0xd;

/// What the walk asks of the game's memory next.
#[derive(Clone, Copy, PartialEq, Eq, Debug, Structural)]
pub enum WalkRequest {
    /// Read the 32-bit word at this address (`reply_word`).
    Word(usize),
    /// Read the byte at this address (`reply_byte`).
    Byte(usize),
    /// Visit this node, the next one in key order (`reply_visit`).
    Visit(usize),
    /// The walk is over: `true` when it got through, `false` when a read failed.
    Done(bool),
}

/// Where a walk stands, waiting for the answer to its last request.
#[derive(Clone, Copy, PartialEq, Eq, Debug, Structural)]
pub enum WalkPhase {
    /// The map's head pointer.
    Head,
    /// The head's left link: the first node in order.
    First,
    /// Whether the current node is the sentinel.
    NodeNil,
    /// The visit of the current node.
    Visit,
    /// The current node's right link.
    Right,
    /// Whether that right child is the sentinel.
    RightNil,
    /// The left link of `cur`, while descending to the leftmost node.
    DescendLeft,
    /// Whether that left child is the sentinel.
    DescendLeftNil,
    /// The parent of the current node, to climb from.
    FirstParent,
    /// Whether `parent` is the sentinel.
    ParentNil,
    /// The right link of `parent`.
    ParentRight,
    /// The next parent up.
    NextParent,
    /// Nothing more is asked.
    Finished,
}

/// An in-order walk over an MSVC `std::map` red-black tree in another
/// program's memory, one read at a time. The caller performs each request
/// and hands back what it read.
#[derive(Clone, Copy, PartialEq, Eq, Debug, Structural)]
pub struct TreeWalk {
    pub phase: WalkPhase,
    /// The sentinel (`_Myhead`).
    pub head: usize,
    /// The node being visited.
    pub node: usize,
    /// The cursor of a successor search.
    pub cur: usize,
    /// The link read last (a right child, left child or parent).
    pub link: usize,
    /// Nodes visited so far.
    pub visits: usize,
    /// Steps of the current successor search.
    pub steps: usize,
}

/// A walk's progress measure: it drops at every request, so every walk ends.
pub open spec fn walk_measure(w: TreeWalk) -> int {
    let big: int = 4 * MAX_NODES + 16;
    let base: int = (MAX_NODES - w.visits) * big;
    match w.phase {
        WalkPhase::Head => MAX_NODES * big + 2,
        WalkPhase::First => MAX_NODES * big + 1,
        WalkPhase::NodeNil => base + big - 1,
        WalkPhase::Visit => base + big - 2,
        WalkPhase::Right => base + big - 3,
        WalkPhase::RightNil => base + big - 4,
        WalkPhase::FirstParent => base + 3 * (MAX_NODES + 1) + 3,
        WalkPhase::ParentNil => base + 3 * (MAX_NODES + 1 - w.steps) + 2,
        WalkPhase::ParentRight => base + 3 * (MAX_NODES + 1 - w.steps) + 1,
        WalkPhase::NextParent => base + 3 * (MAX_NODES + 1 - w.steps) + 3,
        WalkPhase::DescendLeft => base + 2 * (MAX_NODES + 1 - w.steps) + 1,
        WalkPhase::DescendLeftNil => base + 2 * (MAX_NODES + 1 - w.steps),
        WalkPhase::Finished => 0,
    }
}

/// The bounds a walk keeps.
pub open spec fn walk_wf(w: TreeWalk) -> bool {
    &&& w.visits <= MAX_NODES
    &&& (w.phase is NodeNil || w.phase is Visit || w.phase is Right || w.phase is RightNil || w.phase is FirstParent
        || w.phase is ParentNil || w.phase is ParentRight || w.phase is NextParent || w.phase is DescendLeft
        || w.phase is DescendLeftNil) ==> w.visits >= 1
    &&& (w.phase is ParentNil || w.phase is ParentRight) ==> w.steps <= MAX_NODES
    &&& w.phase is NextParent ==> 1 <= w.steps <= MAX_NODES
    &&& (w.phase is DescendLeft || w.phase is DescendLeftNil) ==> 1 <= w.steps <= MAX_NODES
}

/// Whether a request was answered with the kind of value it asked for.
pub open spec fn wants_word(w: TreeWalk) -> bool {
    w.phase is Head || w.phase is First || w.phase is Right || w.phase is DescendLeft || w.phase is FirstParent
        || w.phase is ParentRight || w.phase is NextParent
}

/// The request a walk's state stands for.
pub open spec fn request_of(w: TreeWalk) -> WalkRequest {
    match w.phase {
        WalkPhase::Head => WalkRequest::Word(w.head),
        WalkPhase::First => WalkRequest::Word((w.head + NODE_LEFT) as usize),
        WalkPhase::NodeNil => WalkRequest::Byte(vstd::wrapping::usize_specs::wrapping_add(w.node, NODE_ISNIL)),
        WalkPhase::Visit => WalkRequest::Visit(w.node),
        WalkPhase::Right => WalkRequest::Word(vstd::wrapping::usize_specs::wrapping_add(w.node, NODE_RIGHT)),
        WalkPhase::RightNil => WalkRequest::Byte(vstd::wrapping::usize_specs::wrapping_add(w.link, NODE_ISNIL)),
        WalkPhase::DescendLeft => WalkRequest::Word(w.cur),
        WalkPhase::DescendLeftNil => WalkRequest::Byte(vstd::wrapping::usize_specs::wrapping_add(w.link, NODE_ISNIL)),
        WalkPhase::FirstParent => WalkRequest::Word(vstd::wrapping::usize_specs::wrapping_add(w.node, NODE_PARENT)),
        WalkPhase::ParentNil => WalkRequest::Byte(vstd::wrapping::usize_specs::wrapping_add(w.link, NODE_ISNIL)),
        WalkPhase::ParentRight => WalkRequest::Word(vstd::wrapping::usize_specs::wrapping_add(w.link, NODE_RIGHT)),
        WalkPhase::NextParent => WalkRequest::Word(vstd::wrapping::usize_specs::wrapping_add(w.cur, NODE_PARENT)),
        WalkPhase::Finished => WalkRequest::Done(true),
    }
}

/// How the walk moves on to the next node in order, `next`: it ends when it
/// is back at the sentinel or has visited `MAX_NODES` nodes; otherwise it
/// asks whether `next` is the sentinel.
pub open spec fn advanced(w0: TreeWalk, next: usize, w1: TreeWalk) -> bool {
    &&& w1.node == next
    &&& w1.head == w0.head
    &&& if next == w0.head || w0.visits >= MAX_NODES {
        w1.phase == WalkPhase::Finished
    } else {
        w1.phase == WalkPhase::NodeNil && w1.visits == w0.visits + 1
    }
}

/// Every walk ends: the measure of a walk in bounds is a natural number no
/// greater than that of a new walk, and each answered request lowers it (see
/// the `ensures` of `reply_word`, `reply_byte` and `reply_visit`), so a walk
/// makes at most `MAX_NODES * (4 * MAX_NODES + 16) + 2` requests, whatever the
/// memory holds.
pub proof fn lemma_walk_ends(w: TreeWalk)
    requires
        walk_wf(w),
    ensures
        0 <= walk_measure(w) <= MAX_NODES * (4 * MAX_NODES + 16) + 2,
{
    let big: int = 4 * MAX_NODES + 16;
    let v: int = w.visits as int;
    assert(0 <= (MAX_NODES - v) * big) by (nonlinear_arith)
        requires
            v <= MAX_NODES,
            big > 0,
    ;
    if v >= 1 {
        assert((MAX_NODES - v) * big <= (MAX_NODES - 1) * big) by (nonlinear_arith)
            requires
                v >= 1,
                big > 0,
        ;
    }
}

impl TreeWalk {
    /// A walk over the map object at `container`; its first request reads the
    /// map's head pointer.
    pub fn new(container: usize) -> (w: Self)
        ensures
            w.phase == WalkPhase::Head,
            w.head == container,
            walk_wf(w),
    {
        TreeWalk { phase: WalkPhase::Head, head: container, node: 0, cur: 0, link: 0, visits: 0, steps: 0 }
    }

    /// The request this walk waits on.
    pub fn request(&self) -> (r: WalkRequest)
        ensures
            r == request_of(*self),
    {
        match self.phase {
            WalkPhase::Head => WalkRequest::Word(self.head),
            WalkPhase::First => WalkRequest::Word(self.head),
            WalkPhase::NodeNil => WalkRequest::Byte(self.node.wrapping_add(NODE_ISNIL)),
            WalkPhase::Visit => WalkRequest::Visit(self.node),
            WalkPhase::Right => WalkRequest::Word(self.node.wrapping_add(NODE_RIGHT)),
            WalkPhase::RightNil => WalkRequest::Byte(self.link.wrapping_add(NODE_ISNIL)),
            WalkPhase::DescendLeft => WalkRequest::Word(self.cur),
            WalkPhase::DescendLeftNil => WalkRequest::Byte(self.link.wrapping_add(NODE_ISNIL)),
            WalkPhase::FirstParent => WalkRequest::Word(self.node.wrapping_add(NODE_PARENT)),
            WalkPhase::ParentNil => WalkRequest::Byte(self.link.wrapping_add(NODE_ISNIL)),
            WalkPhase::ParentRight => WalkRequest::Word(self.link.wrapping_add(NODE_RIGHT)),
            WalkPhase::NextParent => WalkRequest::Word(self.cur.wrapping_add(NODE_PARENT)),
            WalkPhase::Finished => WalkRequest::Done(true),
        }
    }

    /// Moves to the next node in order, `next`: the walk ends when it is back
    /// at the sentinel, or when it has visited `MAX_NODES` nodes.
    fn advance(&mut self, next: usize)
        requires
            old(self).visits <= MAX_NODES,
        ensures
            final(self).node == next,
            final(self).head == old(self).head,
            final(self).visits <= MAX_NODES,
            final(self).visits >= old(self).visits,
            if next == old(self).head || old(self).visits >= MAX_NODES {
                final(self).phase == WalkPhase::Finished
            } else {
                final(self).phase == WalkPhase::NodeNil && final(self).visits == old(self).visits + 1
            },
    {
        self.node = next;
        if next == self.head || self.visits >= MAX_NODES {
            self.phase = WalkPhase::Finished;
        } else {
            self.visits = self.visits + 1;
            self.phase = WalkPhase::NodeNil;
        }
    }

    /// Hands back a word read for a `Word` request; `None` when the read
    /// failed, which ends the walk with `Done(false)`. The successor search
    /// follows MSVC's rules: with a right child, the leftmost node below it;
    /// else the first ancestor reached from a left child. A search longer
    /// than `MAX_NODES` steps gives up and ends at the sentinel.
    pub fn reply_word(&mut self, word: Option<usize>) -> (r: WalkRequest)
        requires
            walk_wf(*old(self)),
            wants_word(*old(self)),
        ensures
            walk_wf(*final(self)),
            word is None ==> r == WalkRequest::Done(false),
            word is Some ==> r == request_of(*final(self)),
            word is Some ==> walk_measure(*final(self)) < walk_measure(*old(self)),
            word matches Some(v) ==> match old(self).phase {
                WalkPhase::Head => final(self).phase == WalkPhase::First && final(self).head == v,
                WalkPhase::First => final(self).head == old(self).head && final(self).node == v && (
                    final(self).phase == WalkPhase::NodeNil),
                WalkPhase::Right => final(self).phase == WalkPhase::RightNil && final(self).link == v
                    && final(self).node == old(self).node,
                WalkPhase::DescendLeft => final(self).phase == WalkPhase::DescendLeftNil && final(self).link == v
                    && final(self).cur == old(self).cur,
                WalkPhase::FirstParent => final(self).phase == WalkPhase::ParentNil && final(self).link == v
                    && final(self).cur == old(self).node && final(self).steps == 0,
                WalkPhase::ParentRight => if old(self).cur != v {
                    advanced(*old(self), old(self).link, *final(self))
                } else if old(self).steps >= MAX_NODES {
                    advanced(*old(self), old(self).head, *final(self))
                } else {
                    final(self).phase == WalkPhase::NextParent && final(self).cur == old(self).link
                        && final(self).steps == old(self).steps + 1
                },
                WalkPhase::NextParent => final(self).phase == WalkPhase::ParentNil && final(self).link == v
                    && final(self).cur == old(self).cur,
                _ => false,
            },
    {
        let v = match word {
            None => {
                self.phase = WalkPhase::Finished;
                return WalkRequest::Done(false);
            },
            Some(v) => v,
        };
        match self.phase {
            WalkPhase::Head => {
                self.head = v;
                self.phase = WalkPhase::First;
            },
            WalkPhase::First => {
                self.node = v;
                self.visits = 1;
                self.phase = WalkPhase::NodeNil;
            },
            WalkPhase::Right => {
                self.link = v;
                self.phase = WalkPhase::RightNil;
            },
            WalkPhase::DescendLeft => {
                self.link = v;
                self.phase = WalkPhase::DescendLeftNil;
            },
            WalkPhase::FirstParent => {
                self.cur = self.node;
                self.link = v;
                self.steps = 0;
                self.phase = WalkPhase::ParentNil;
            },
            WalkPhase::ParentRight => {
                if self.cur != v {
                    let p = self.link;
                    self.advance(p);
                } else if self.steps >= MAX_NODES {
                    let h = self.head;
                    self.advance(h);
                } else {
                    self.steps = self.steps + 1;
                    self.cur = self.link;
                    self.phase = WalkPhase::NextParent;
                }
            },
            _ => {
                self.link = v;
                self.phase = WalkPhase::ParentNil;
            },
        }
        self.request()
    }

    /// Hands back a byte read for a `Byte` request (a sentinel flag); `None`
    /// when the read failed, which ends the walk with `Done(false)`.
    pub fn reply_byte(&mut self, byte: Option<u8>) -> (r: WalkRequest)
        requires
            walk_wf(*old(self)),
            old(self).phase is NodeNil || old(self).phase is RightNil || old(self).phase is DescendLeftNil
                || old(self).phase is ParentNil,
        ensures
            walk_wf(*final(self)),
            byte is None ==> r == WalkRequest::Done(false),
            byte is Some ==> r == request_of(*final(self)),
            byte is Some ==> walk_measure(*final(self)) < walk_measure(*old(self)),
            byte matches Some(b) ==> match old(self).phase {
                WalkPhase::NodeNil => if b != 0 {
                    final(self).phase == WalkPhase::Finished
                } else {
                    final(self).phase == WalkPhase::Visit && final(self).node == old(self).node
                },
                WalkPhase::RightNil => if b == 0 {
                    final(self).phase == WalkPhase::DescendLeft && final(self).cur == old(self).link
                        && final(self).steps == 1
                } else {
                    final(self).phase == WalkPhase::FirstParent && final(self).node == old(self).node
                },
                WalkPhase::DescendLeftNil => if b != 0 {
                    advanced(*old(self), old(self).cur, *final(self))
                } else if old(self).steps >= MAX_NODES {
                    advanced(*old(self), old(self).head, *final(self))
                } else {
                    final(self).phase == WalkPhase::DescendLeft && final(self).cur == old(self).link
                        && final(self).steps == old(self).steps + 1
                },
                _ => if b != 0 {
                    advanced(*old(self), old(self).link, *final(self))
                } else {
                    final(self).phase == WalkPhase::ParentRight && final(self).link == old(self).link
                },
            },
    {
        let b = match byte {
            None => {
                self.phase = WalkPhase::Finished;
                return WalkRequest::Done(false);
            },
            Some(b) => b,
        };
        match self.phase {
            WalkPhase::NodeNil => {
                if b != 0 {
                    self.phase = WalkPhase::Finished;
                } else {
                    self.phase = WalkPhase::Visit;
                }
            },
            WalkPhase::RightNil => {
                if b == 0 {
                    self.cur = self.link;
                    self.steps = 1;
                    self.phase = WalkPhase::DescendLeft;
                } else {
                    self.phase = WalkPhase::FirstParent;
                }
            },
            WalkPhase::DescendLeftNil => {
                if b != 0 {
                    let c = self.cur;
                    self.advance(c);
                } else if self.steps >= MAX_NODES {
                    let h = self.head;
                    self.advance(h);
                } else {
                    self.steps = self.steps + 1;
                    self.cur = self.link;
                    self.phase = WalkPhase::DescendLeft;
                }
            },
            _ => {
                if b != 0 {
                    let p = self.link;
                    self.advance(p);
                } else {
                    self.phase = WalkPhase::ParentRight;
                }
            },
        }
        self.request()
    }

    /// Reports that the current node was visited: `ok` false (the caller
    /// could not read what it needed) ends the walk with `Done(false)`; else
    /// the search for the next node begins with the node's right link.
    pub fn reply_visit(&mut self, ok: bool) -> (r: WalkRequest)
        requires
            walk_wf(*old(self)),
            old(self).phase is Visit,
        ensures
            walk_wf(*final(self)),
            !ok ==> r == WalkRequest::Done(false),
            ok ==> r == request_of(*final(self)) && final(self).phase == WalkPhase::Right && final(self).node == old(
                self,
            ).node,
            ok ==> walk_measure(*final(self)) < walk_measure(*old(self)),
    {
        if !ok {
            self.phase = WalkPhase::Finished;
            return WalkRequest::Done(false);
        }
        self.phase = WalkPhase::Right;
        self.request()
    }
}

} // verus!
