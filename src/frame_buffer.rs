use vstd::prelude::*;

use crate::error::FastEmuGUIError;

verus! {

/// A critical section owned by the producer of the pixel data. The buffer
/// copy runs between `acquire` and `release`; this library never creates or
/// destroys the handle.
pub trait SyncHandle {
    fn acquire(&mut self);

    fn release(&mut self);
}

/// The abstract contents of a frame buffer.
pub struct FrameBufferView {
    pub height: nat,
    pub width: nat,
    pub required_length: nat,
    pub image: Seq<u8>,
}

/// A fixed-size RGBA8 image, replaced whole from external bytes.
pub struct FrameBuffer {
    height: usize,
    width: usize,
    required_buffer_length: usize,
    image: Vec<u8>,
}

impl View for FrameBuffer {
    type V = FrameBufferView;

    closed spec fn view(&self) -> FrameBufferView {
        FrameBufferView {
            height: self.height as nat,
            width: self.width as nat,
            required_length: self.required_buffer_length as nat,
            image: self.image@,
        }
    }
}

impl FrameBufferView {
    /// The required length is four bytes per pixel, and the image is either
    /// still empty or exactly that long.
    pub open spec fn wf(self) -> bool {
        &&& self.required_length == self.height * self.width * 4
        &&& (self.image.len() == 0 || self.image.len() == self.required_length)
    }

    /// The frame buffer after `bytes` are offered as its new image.
    pub open spec fn replaced(self, bytes: Seq<u8>) -> FrameBufferView {
        if bytes.len() == self.required_length {
            FrameBufferView { image: bytes, ..self }
        } else {
            self
        }
    }
}

impl FrameBuffer {
    pub fn new(height: usize, width: usize) -> (r: FrameBuffer)
        requires
            height * width * 4 <= usize::MAX,
        ensures
            r@ == (FrameBufferView {
                height: height as nat,
                width: width as nat,
                required_length: (height * width * 4) as nat,
                image: Seq::empty(),
            }),
            r@.wf(),
    {
        proof {
            assert(height * width <= height * width * 4) by (nonlinear_arith);
        }
        FrameBuffer {
            height,
            width,
            required_buffer_length: height * width * 4,
            image: Vec::new(),
        }
    }

    /// Replaces the image with a copy of `buffer`, made while `mutex` is held.
    /// A buffer of the wrong length is refused and the image stays as it was.
    pub fn update_frame_buffer<S: SyncHandle>(&mut self, buffer: &[u8], mutex: &mut S) -> (r:
        Result<(), FastEmuGUIError>)
        ensures
            final(self)@ == old(self)@.replaced(buffer@),
            buffer@.len() == old(self)@.required_length <==> r is Ok,
            buffer@.len() != old(self)@.required_length ==> r == Err::<(), FastEmuGUIError>(
                FastEmuGUIError::MismatchedBufferSize {
                    expected: old(self)@.required_length as usize,
                    received: buffer@.len() as usize,
                },
            ),
    {
        if buffer.len() != self.required_buffer_length {
            return Err(
                FastEmuGUIError::MismatchedBufferSize {
                    expected: self.required_buffer_length,
                    received: buffer.len(),
                },
            );
        }
        mutex.acquire();
        let mut copy: Vec<u8> = Vec::with_capacity(buffer.len());
        let mut i: usize = 0;
        while i < buffer.len()
            invariant
                i <= buffer@.len(),
                copy@ =~= buffer@.take(i as int),
            decreases buffer@.len() - i,
        {
            copy.push(buffer[i]);
            i = i + 1;
        }
        proof {
            assert(buffer@.take(buffer@.len() as int) =~= buffer@);
        }
        self.image = copy;
        mutex.release();
        Ok(())
    }

    /// The current image, row-major RGBA8; empty until the first frame arrives.
    pub fn get_image(&self) -> (r: &Vec<u8>)
        ensures
            r@ == self@.image,
    {
        &self.image
    }

    pub fn height(&self) -> (r: usize)
        ensures
            r == self@.height,
    {
        self.height
    }

    pub fn width(&self) -> (r: usize)
        ensures
            r == self@.width,
    {
        self.width
    }
}

} // verus!
