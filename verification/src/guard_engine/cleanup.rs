//! The last stage of the guard: drop what verification left behind.

use vstd::prelude::*;
use crate::opcodes::{OP_2DROP, OP_DROP, OP_FROMALTSTACK, OP_SHA256, OP_TOALTSTACK};

verus! {

/// `n` times the byte `b`.
pub open spec fn repeat(b: u8, n: nat) -> Seq<u8> {
    Seq::new(n, |i: int| b)
}

/// How many items are dropped: one more when the tail's item is not kept
/// aside, one less when the message is kept.
pub open spec fn drops(drop_count: int, preserve_tail: bool, preserve_message: bool) -> int {
    drop_count + (if preserve_tail {
        0int
    } else {
        1int
    }) - (if preserve_message {
        1int
    } else {
        0int
    })
}

/// The cleanup script: the kept items go aside, the rest is dropped two at
/// a time, the kept items come back.
pub open spec fn cleanup_script(drop_count: int, preserve_tail: bool, preserve_message: bool) -> Seq<
    u8,
> {
    let n = drops(drop_count, preserve_tail, preserve_message);
    (if preserve_tail {
        seq![OP_TOALTSTACK]
    } else {
        Seq::<u8>::empty()
    }) + (if preserve_message {
        seq![OP_SHA256, OP_TOALTSTACK]
    } else {
        Seq::<u8>::empty()
    }) + repeat(OP_2DROP, (n / 2) as nat) + repeat(OP_DROP, (n % 2) as nat) + (if preserve_message {
        seq![OP_FROMALTSTACK]
    } else {
        Seq::<u8>::empty()
    }) + (if preserve_tail {
        seq![OP_FROMALTSTACK]
    } else {
        Seq::<u8>::empty()
    })
}

/// What to drop and what to keep after verification.
pub struct StackCleanup {
    drop_count: usize,
    preserve_tail: bool,
    preserve_message: bool,
}

impl StackCleanup {
    pub closed spec fn drop_count(&self) -> usize {
        self.drop_count
    }

    pub closed spec fn keeps_tail(&self) -> bool {
        self.preserve_tail
    }

    pub closed spec fn keeps_message(&self) -> bool {
        self.preserve_message
    }

    /// The number of drops is neither negative nor beyond the machine.
    pub open spec fn wf(&self) -> bool {
        0 <= drops(self.drop_count() as int, self.keeps_tail(), self.keeps_message()) <= usize::MAX
    }

    /// A cleanup that drops `drop_count` items and keeps the tail's item.
    pub fn new(drop_count: usize) -> (c: Self)
        ensures
            c.drop_count() == drop_count,
            c.keeps_tail(),
            !c.keeps_message(),
    {
        Self { drop_count, preserve_tail: true, preserve_message: false }
    }

    pub fn preserve_tail(self, preserve: bool) -> (c: Self)
        ensures
            c.drop_count() == self.drop_count(),
            c.keeps_tail() == preserve,
            c.keeps_message() == self.keeps_message(),
    {
        let mut c = self;
        c.preserve_tail = preserve;
        c
    }

    pub fn preserve_message(self, preserve: bool) -> (c: Self)
        ensures
            c.drop_count() == self.drop_count(),
            c.keeps_tail() == self.keeps_tail(),
            c.keeps_message() == preserve,
    {
        let mut c = self;
        c.preserve_message = preserve;
        c
    }

    pub fn build(&self) -> (script: Vec<u8>)
        requires
            self.wf(),
        ensures
            script@ == cleanup_script(
                self.drop_count() as int,
                self.keeps_tail(),
                self.keeps_message(),
            ),
    {
        let mut script: Vec<u8> = Vec::new();
        if self.preserve_tail {
            script.push(OP_TOALTSTACK);
        }
        if self.preserve_message {
            script.push(OP_SHA256);
            script.push(OP_TOALTSTACK);
        }
        let items_to_drop: usize = if self.preserve_tail {
            if self.preserve_message {
                self.drop_count - 1
            } else {
                self.drop_count
            }
        } else {
            if self.preserve_message {
                self.drop_count
            } else {
                self.drop_count + 1
            }
        };
        let two_drops: usize = items_to_drop / 2;
        let single_drops: usize = items_to_drop % 2;
        let ghost head = script@;
        let mut i: usize = 0;
        while i < two_drops
            invariant
                0 <= i <= two_drops,
                script@ == head + repeat(OP_2DROP, i as nat),
            decreases two_drops - i,
        {
            script.push(OP_2DROP);
            i += 1;
            assert(script@ =~= head + repeat(OP_2DROP, i as nat));
        }
        let ghost mid = script@;
        let mut j: usize = 0;
        while j < single_drops
            invariant
                0 <= j <= single_drops,
                script@ == mid + repeat(OP_DROP, j as nat),
            decreases single_drops - j,
        {
            script.push(OP_DROP);
            j += 1;
            assert(script@ =~= mid + repeat(OP_DROP, j as nat));
        }
        if self.preserve_message {
            script.push(OP_FROMALTSTACK);
        }
        if self.preserve_tail {
            script.push(OP_FROMALTSTACK);
        }
        assert(script@ =~= cleanup_script(
            self.drop_count() as int,
            self.keeps_tail(),
            self.keeps_message(),
        ));
        script
    }

    /// How many items stay on the stack.
    pub fn remaining_count(&self) -> (n: usize)
        ensures
            n == (if self.keeps_tail() {
                1int
            } else {
                0int
            }) + (if self.keeps_message() {
                1int
            } else {
                0int
            }),
    {
        let mut count: usize = 0;
        if self.preserve_tail {
            count += 1;
        }
        if self.preserve_message {
            count += 1;
        }
        count
    }
}

} // verus!
