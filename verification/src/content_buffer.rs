//! A staged reader that wraps template content with a fixed prologue and
//! epilogue, so that the engine-side boilerplate around every content
//! template is injected once instead of repeated in each file. Reading
//! hands out the prologue, then the content, then the epilogue, in order.

use vstd::prelude::*;
use crate::bytes::copy_range;

verus! {

/// Which part of the wrapped stream the next read serves.
pub enum Stage {
    Prologue,
    Content,
    Epilogue,
    Eof,
}

/// Names the two fixed parts, so the shared copying helper can only be
/// asked for one of them.
pub enum OtherStage {
    Prologue,
    Epilogue,
}

/// The wrapper: three buffers, the current stage, and how far into the
/// current buffer reading has come.
pub struct LayoutBuffer {
    pub prologue: Vec<u8>,
    pub content: Vec<u8>,
    pub epilogue: Vec<u8>,
    pub stage: Stage,
    pub pos: usize,
}

impl LayoutBuffer {
    /// The read position stays within the current stage's buffer.
    pub open spec fn wf(self) -> bool {
        match self.stage {
            Stage::Prologue => self.pos <= self.prologue@.len(),
            Stage::Content => self.pos <= self.content@.len(),
            Stage::Epilogue => self.pos <= self.epilogue@.len(),
            Stage::Eof => self.pos == 0,
        }
    }

    /// The bytes not yet handed out.
    pub open spec fn remaining(self) -> Seq<u8> {
        match self.stage {
            Stage::Prologue => self.prologue@.skip(self.pos as int) + self.content@
                + self.epilogue@,
            Stage::Content => self.content@.skip(self.pos as int) + self.epilogue@,
            Stage::Epilogue => self.epilogue@.skip(self.pos as int),
            Stage::Eof => Seq::empty(),
        }
    }

    /// Wraps `content` between `prologue` and `epilogue`: reading out the
    /// whole buffer yields their concatenation.
    pub fn new(prologue: Vec<u8>, content: Vec<u8>, epilogue: Vec<u8>) -> (r: LayoutBuffer)
        ensures
            r.wf(),
            r.remaining() == prologue@ + content@ + epilogue@,
    {
        let r = LayoutBuffer { prologue, content, epilogue, stage: Stage::Prologue, pos: 0 };
        assert(r.remaining() =~= r.prologue@ + r.content@ + r.epilogue@);
        r
    }

    /// Copies up to `max` bytes out of the prologue or the epilogue,
    /// advancing to the following stage when the buffer is exhausted.
    fn read_prologue_or_epilogue(&mut self, max: usize, which: OtherStage) -> (r: Vec<u8>)
        requires
            old(self).wf(),
            which is Prologue ==> old(self).stage is Prologue,
            which is Epilogue ==> old(self).stage is Epilogue,
        ensures
            final(self).wf(),
            r@.len() <= max,
            r@ == old(self).remaining().take(r@.len() as int),
            final(self).remaining() == old(self).remaining().skip(r@.len() as int),
            max > 0 && old(self).remaining().len() > 0 ==> r@.len() > 0 || match which {
                OtherStage::Prologue => old(self).pos == old(self).prologue@.len(),
                OtherStage::Epilogue => old(self).pos == old(self).epilogue@.len(),
            },
    {
        let buf_len: usize = match which {
            OtherStage::Prologue => self.prologue.len(),
            OtherStage::Epilogue => self.epilogue.len(),
        };
        let left: usize = buf_len - self.pos;
        let size: usize = if max < left {
            max
        } else {
            left
        };
        let out: Vec<u8> = match which {
            OtherStage::Prologue => copy_range(&self.prologue, self.pos, self.pos + size),
            OtherStage::Epilogue => copy_range(&self.epilogue, self.pos, self.pos + size),
        };
        let ghost before = *self;
        self.pos = self.pos + size;
        if self.pos >= buf_len {
            self.pos = 0;
            match which {
                OtherStage::Prologue => {
                    self.stage = Stage::Content;
                },
                OtherStage::Epilogue => {
                    self.stage = Stage::Eof;
                },
            }
        }
        proof {
            assert(out@ =~= before.remaining().take(out@.len() as int));
            assert(self.remaining() =~= before.remaining().skip(out@.len() as int));
        }
        out
    }

    /// Hands out the next chunk of the wrapped stream, at most `max` bytes:
    /// what comes back is exactly the next prefix of the remaining bytes,
    /// and a non-empty chunk whenever bytes remain and `max` allows one.
    pub fn read(&mut self, max: usize) -> (r: Vec<u8>)
        requires
            old(self).wf(),
        ensures
            final(self).wf(),
            r@.len() <= max,
            r@ == old(self).remaining().take(r@.len() as int),
            final(self).remaining() == old(self).remaining().skip(r@.len() as int),
            max > 0 && old(self).remaining().len() > 0 ==> r@.len() > 0,
    {
        let ghost entry = *self;
        let advance = match self.stage {
            Stage::Prologue => self.pos == self.prologue.len(),
            _ => false,
        };
        if advance {
            self.stage = Stage::Content;
            self.pos = 0;
        }
        assert(self.remaining() =~= entry.remaining());
        let ghost step1 = *self;
        let advance2 = match self.stage {
            Stage::Content => self.pos == self.content.len(),
            _ => false,
        };
        if advance2 {
            self.stage = Stage::Epilogue;
            self.pos = 0;
        }
        assert(self.remaining() =~= step1.remaining());
        let ghost step2 = *self;
        let advance3 = match self.stage {
            Stage::Epilogue => self.pos == self.epilogue.len(),
            _ => false,
        };
        if advance3 {
            self.stage = Stage::Eof;
            self.pos = 0;
        }
        assert(self.remaining() =~= step2.remaining());
        let ghost ready = *self;
        let out: Vec<u8> = match self.stage {
            Stage::Prologue => self.read_prologue_or_epilogue(max, OtherStage::Prologue),
            Stage::Content => {
                let left: usize = self.content.len() - self.pos;
                let size: usize = if max < left {
                    max
                } else {
                    left
                };
                let chunk = copy_range(&self.content, self.pos, self.pos + size);
                self.pos = self.pos + size;
                proof {
                    assert(chunk@ =~= ready.remaining().take(chunk@.len() as int));
                    assert(self.remaining() =~= ready.remaining().skip(chunk@.len() as int));
                }
                chunk
            },
            Stage::Epilogue => self.read_prologue_or_epilogue(max, OtherStage::Epilogue),
            Stage::Eof => Vec::new(),
        };
        proof {
            assert(out@ =~= entry.remaining().take(out@.len() as int));
            assert(self.remaining() =~= entry.remaining().skip(out@.len() as int));
        }
        out
    }
}

} // verus!
