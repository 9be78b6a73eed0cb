//! The write-only byte stream that boot-time diagnostics go to.
//!
//! The global output singleton, `println`-style formatting and hexdumps
//! live in the unverified runtime shell; here is the interface they go
//! through, implemented by the VGA surface.

use vstd::prelude::*;

use crate::vga::{spec_vga_write, VGA};

verus! {

/// A write-only byte sink for diagnostics.
pub trait IOOutput: Sized {
    /// How a write changes the sink: each implementation says what state
    /// `post` a write of `data` in state `pre` leaves behind.
    spec fn write_rel(pre: Self, post: Self, data: Seq<u8>) -> bool;

    /// Write all of `data` to the sink.
    fn write(&mut self, data: &Vec<u8>)
        ensures
            Self::write_rel(*old(self), *final(self), data@),
    ;
}

impl IOOutput for VGA {
    /// Writing puts every byte on the text surface in order, per
    /// [`spec_vga_write`]; colours and geometry do not change. A malformed
    /// surface is left untouched.
    open spec fn write_rel(pre: VGA, post: VGA, data: Seq<u8>) -> bool {
        if pre.wf() {
            &&& (post.cells@, post.pos_x as int, post.pos_y as int) == spec_vga_write(
                pre.cells@,
                pre.pos_x as int,
                pre.pos_y as int,
                pre.color_fg,
                pre.color_bg,
                data,
            )
            &&& post.color_fg == pre.color_fg
            &&& post.color_bg == pre.color_bg
            &&& post.res_x == pre.res_x
            &&& post.res_y == pre.res_y
        } else {
            post == pre
        }
    }

    fn write(&mut self, data: &Vec<u8>) {
        if !(self.res_x == 80 && self.res_y == 25 && self.cells.len() == 2000 && self.color_fg
            < 16 && self.color_bg < 16 && self.pos_x < 80 && self.pos_y < 25) {
            /* A malformed surface is left untouched. */
            return ;
        }
        let n = data.len();
        let mut i: usize = 0;
        proof {
            assert(data@.skip(0) =~= data@);
        }
        while i < n
            invariant
                old(self).wf(),
                self.wf(),
                i <= n,
                n == data@.len(),
                self.color_fg == old(self).color_fg,
                self.color_bg == old(self).color_bg,
                self.res_x == old(self).res_x,
                self.res_y == old(self).res_y,
                spec_vga_write(
                    old(self).cells@,
                    old(self).pos_x as int,
                    old(self).pos_y as int,
                    old(self).color_fg,
                    old(self).color_bg,
                    data@,
                ) == spec_vga_write(
                    self.cells@,
                    self.pos_x as int,
                    self.pos_y as int,
                    self.color_fg,
                    self.color_bg,
                    data@.skip(i as int),
                ),
            decreases n - i,
        {
            proof {
                assert(data@.skip(i as int)[0] == data@[i as int]);
                assert(data@.skip(i as int).drop_first() =~= data@.skip(i + 1));
            }
            self.put_char(data[i]);
            i = i + 1;
        }
        proof {
            assert(data@.skip(n as int) =~= Seq::<u8>::empty());
        }
    }
}

} // verus!
