//! The host's end of the guest's network device: a queue of Ethernet frames.

use vstd::prelude::*;

verus! {

/// The longest frame: a 14-byte Ethernet header and a 1500-byte IP payload.
pub const MTU: usize = 1514;

/// The size of the buffer that frames are received in, with slack for oversized ones.
pub const RECV_BUF_SIZE: usize = 1578;

/// How many frames are read ahead.
pub const MAX_PENDING_FRAMES: usize = 256;

/// Some bytes that were received, if any were: what `count` says of the buffer.
pub fn received_frame(buffer: &Vec<u8>, count: isize) -> (r: Option<Vec<u8>>)
    requires
        count <= buffer@.len(),
    ensures
        if count <= 0 {
            r is None
        } else {
            r matches Some(frame) && frame@ == buffer@.take(count as int)
        },
{
    if count <= 0 {
        return None;
    }
    let n = count as usize;
    let mut frame: Vec<u8> = Vec::new();
    let mut i: usize = 0;
    while i < n
        invariant
            i <= n <= buffer@.len(),
            frame@ =~= buffer@.take(i as int),
        decreases n - i,
    {
        frame.push(buffer[i]);
        i += 1;
    }
    Some(frame)
}

/// The device behind a datagram socket that carries Ethernet frames.
#[derive(Debug)]
pub struct VZDevice {
    fd: i32,
    pending: Vec<Vec<u8>>,
}

impl VZDevice {
    #[verifier::type_invariant]
    spec fn reads_ahead_no_further(self) -> bool {
        self.pending@.len() <= MAX_PENDING_FRAMES
    }

    /// The descriptor of the socket.
    pub closed spec fn socket(self) -> i32 {
        self.fd
    }

    /// Frames that were read and not consumed, in the order in which they came.
    pub closed spec fn pending(self) -> Seq<Vec<u8>> {
        self.pending@
    }

    /// A device on a socket.
    pub fn new(fd: i32) -> (r: Self)
        ensures
            r.socket() == fd,
            r.pending().len() == 0,
    {
        VZDevice { fd, pending: Vec::new() }
    }

    /// The descriptor of the socket.
    pub fn fd(&self) -> (r: i32)
        ensures
            r == self.socket(),
    {
        self.fd
    }

    /// Whether another frame is to be read ahead.
    pub fn wants_frame(&self) -> (r: bool)
        ensures
            r == (self.pending().len() < MAX_PENDING_FRAMES),
    {
        self.pending.len() < MAX_PENDING_FRAMES
    }

    /// Takes a frame that was read ahead. The result says whether to read another: not
    /// where nothing came, or where the queue is full, which leaves it as it is.
    pub fn drain_recv(&mut self, frame: Option<Vec<u8>>) -> (r: bool)
        ensures
            final(self).socket() == old(self).socket(),
            final(self).pending() == (match frame {
                Some(f) => if old(self).pending().len() < MAX_PENDING_FRAMES {
                    old(self).pending().push(f)
                } else {
                    old(self).pending()
                },
                None => old(self).pending(),
            }),
            final(self).pending() == read_ahead(old(self).pending(), frame),
            r == (frame is Some && final(self).pending().len() < MAX_PENDING_FRAMES),
            final(self).pending().len() <= MAX_PENDING_FRAMES,
    {
        proof {
            use_type_invariant(&*self);
        }
        match frame {
            Some(f) => {
                if self.pending.len() < MAX_PENDING_FRAMES {
                    let mut pending: Vec<Vec<u8>> = Vec::new();
                    std::mem::swap(&mut pending, &mut self.pending);
                    pending.push(f);
                    self.pending = pending;
                }
                self.pending.len() < MAX_PENDING_FRAMES
            },
            None => false,
        }
    }

    /// The frames that wait to be consumed, for inspection.
    pub fn pending_frames(&self) -> (r: &Vec<Vec<u8>>)
        ensures
            r@ == self.pending(),
    {
        &self.pending
    }

    /// Takes the frame that has waited longest. Where none waits, one may be read from
    /// the socket.
    pub fn receive(&mut self) -> (r: Option<VZRxToken>)
        ensures
            final(self).socket() == old(self).socket(),
            match r {
                Some(token) => old(self).pending().len() > 0 && token.frame()
                    == old(self).pending()[0]@ && final(self).pending()
                    == old(self).pending().drop_first(),
                None => old(self).pending().len() == 0 && final(self).pending()
                    == old(self).pending(),
            },
    {
        proof {
            use_type_invariant(&*self);
        }
        if self.pending.len() == 0 {
            return None;
        }
        let mut pending: Vec<Vec<u8>> = Vec::new();
        std::mem::swap(&mut pending, &mut self.pending);
        let ghost was = pending@;
        let buffer = pending.remove(0);
        assert(pending@ =~= was.drop_first());
        self.pending = pending;
        Some(VZRxToken { buffer })
    }
}

/// A frame that is about to be consumed.
#[derive(Debug)]
pub struct VZRxToken {
    buffer: Vec<u8>,
}

impl VZRxToken {
    /// The frame.
    pub closed spec fn frame(self) -> Seq<u8> {
        self.buffer@
    }

    /// A token for a frame.
    pub fn new(buffer: Vec<u8>) -> (r: Self)
        ensures
            r.frame() == buffer@,
    {
        VZRxToken { buffer }
    }

    /// Consumes the frame: hands its bytes to `f`.
    pub fn consume<R, F: FnOnce(&[u8]) -> R>(self, f: F) -> (r: R)
        requires
            forall|bytes: &[u8]| bytes@ == self.frame() ==> #[trigger] f.requires((bytes,)),
        ensures
            exists|bytes: &[u8]| bytes@ == self.frame() && #[trigger] f.ensures((bytes,), r),
    {
        f(self.buffer.as_slice())
    }
}

/// Frames are consumed in the order in which they came: what was consumed, followed by
/// what waits, is what came, however taking in and consuming take turns.
pub proof fn law_frames_stay_in_order(
    consumed: Seq<Vec<u8>>,
    pending: Seq<Vec<u8>>,
    frame: Vec<u8>,
)
    ensures
        consumed + pending.push(frame) == (consumed + pending).push(frame),
        pending.len() < 256 ==> consumed + read_ahead(pending, Some(frame)) == (consumed
            + pending).push(frame),
        pending.len() > 0 ==> consumed.push(pending[0]) + pending.drop_first() == consumed
            + pending,
{
    assert(consumed + pending.push(frame) =~= (consumed + pending).push(frame));
    if pending.len() > 0 {
        assert(consumed.push(pending[0]) + pending.drop_first() =~= consumed + pending);
    }
}

/// What a device has read ahead after a frame, if one came, was handed to it.
pub open spec fn read_ahead(pending: Seq<Vec<u8>>, frame: Option<Vec<u8>>) -> Seq<Vec<u8>> {
    match frame {
        Some(f) => if pending.len() < MAX_PENDING_FRAMES {
            pending.push(f)
        } else {
            pending
        },
        None => pending,
    }
}

/// A device takes frames in behind those that wait, up to 256 of them, and loses none that
/// waits.
pub proof fn law_frames_are_read_ahead(pending: Seq<Vec<u8>>, frame: Option<Vec<u8>>, i: int)
    requires
        pending.len() <= 256,
    ensures
        ({
            let after = read_ahead(pending, frame);
            &&& 0 <= i < pending.len() ==> after[i] == pending[i]
            &&& frame is Some && pending.len() < 256 ==> after.len() == pending.len() + 1
                && after.last() == frame->0
            &&& frame is None || pending.len() == 256 ==> after == pending
        }),
{
}

/// The longest frame is an IP packet of 1500 bytes behind the header, and the buffer has
/// room for it.
pub proof fn law_frames_fit()
    ensures
        MTU == 1500 + 14,
        RECV_BUF_SIZE == MTU + 64,
        MAX_PENDING_FRAMES == 256,
{
}

} // verus!
