//! The configuration of an AF_XDP server: how the interface is attached, and
//! how the frames of the shared UMEM are split among the RX and TX queues.

use vstd::prelude::*;
use vstd::string::StringSliceAdditionalSpecFns;

verus! {

/// How the XDP program is attached to the interface.
#[derive(Clone, Copy, Debug, PartialEq, Eq, Structural)]
pub enum XdpMode {
    Auto,
    Skb,
    Drv,
    Hw,
}

/// Returned for an XDP mode name that is not known.
#[derive(Clone, Copy, Debug, PartialEq, Eq, Structural)]
pub struct InvalidXdpMode;

/// The mode that a name stands for (the names are ASCII: `auto`, `skb`, `drv` or
/// `driver`, `hw` or `hardware`).
pub open spec fn xdp_mode_of(name: Seq<u8>) -> Option<XdpMode> {
    if name == seq![97u8, 117u8, 116u8, 111u8] {
        Some(XdpMode::Auto)
    } else if name == seq![115u8, 107u8, 98u8] {
        Some(XdpMode::Skb)
    } else if name == seq![100u8, 114u8, 118u8] || name == seq![
        100u8,
        114u8,
        105u8,
        118u8,
        101u8,
        114u8,
    ] {
        Some(XdpMode::Drv)
    } else if name == seq![104u8, 119u8] || name == seq![
        104u8,
        97u8,
        114u8,
        100u8,
        119u8,
        97u8,
        114u8,
        101u8,
    ] {
        Some(XdpMode::Hw)
    } else {
        None
    }
}

/// Returns `true` if `bytes` are the bytes of `lit`.
fn bytes_are(bytes: &[u8], lit: &[u8]) -> (r: bool)
    ensures
        r == (bytes@ == lit@),
{
    if bytes.len() != lit.len() {
        return false;
    }
    let mut i: usize = 0;
    while i < bytes.len()
        invariant
            bytes@.len() == lit@.len(),
            i <= bytes@.len(),
            forall|j: int| 0 <= j < i ==> bytes@[j] == lit@[j],
        decreases bytes@.len() - i,
    {
        if bytes[i] != lit[i] {
            return false;
        }
        i = i + 1;
    }
    proof {
        assert(bytes@ =~= lit@);
    }
    true
}

impl XdpMode {
    /// Parses `auto`, `skb`, `drv` or `driver`, `hw` or `hardware`.
    pub fn parse(v: &str) -> (r: Result<XdpMode, InvalidXdpMode>)
        ensures
            match xdp_mode_of(v.spec_bytes()) {
                Some(m) => r == Ok::<XdpMode, InvalidXdpMode>(m),
                None => r == Err::<XdpMode, InvalidXdpMode>(InvalidXdpMode),
            },
    {
        let b = v.as_bytes();
        let auto: [u8; 4] = [97u8, 117u8, 116u8, 111u8];
        let skb: [u8; 3] = [115u8, 107u8, 98u8];
        let drv: [u8; 3] = [100u8, 114u8, 118u8];
        let driver: [u8; 6] = [100u8, 114u8, 105u8, 118u8, 101u8, 114u8];
        let hw: [u8; 2] = [104u8, 119u8];
        let hardware: [u8; 8] = [104u8, 97u8, 114u8, 100u8, 119u8, 97u8, 114u8, 101u8];
        proof {
            assert(auto@ =~= seq![97u8, 117u8, 116u8, 111u8]);
            assert(skb@ =~= seq![115u8, 107u8, 98u8]);
            assert(drv@ =~= seq![100u8, 114u8, 118u8]);
            assert(driver@ =~= seq![100u8, 114u8, 105u8, 118u8, 101u8, 114u8]);
            assert(hw@ =~= seq![104u8, 119u8]);
            assert(hardware@ =~= seq![104u8, 97u8, 114u8, 100u8, 119u8, 97u8, 114u8, 101u8]);
        }
        if bytes_are(b, auto.as_slice()) {
            Ok(XdpMode::Auto)
        } else if bytes_are(b, skb.as_slice()) {
            Ok(XdpMode::Skb)
        } else if bytes_are(b, drv.as_slice()) || bytes_are(b, driver.as_slice()) {
            Ok(XdpMode::Drv)
        } else if bytes_are(b, hw.as_slice()) || bytes_are(b, hardware.as_slice()) {
            Ok(XdpMode::Hw)
        } else {
            Err(InvalidXdpMode)
        }
    }
}

/// The options of an XDP server.
#[derive(Clone, Debug)]
pub struct Xdp {
    pub interface: String,
    pub tx_queue_len: u32,
    pub rx_queue_len: u32,
    pub frame_size: u32,
    pub xdp_stats: bool,
    pub bpf_trace: bool,
    pub xdp_mode: XdpMode,
    pub split_queues: bool,
}

/// The UMEM frames `start..end`, by index.
#[derive(Clone, Copy, Debug, PartialEq, Eq, Structural)]
pub struct FrameRange {
    pub start: u32,
    pub end: u32,
}

/// What one queue of the interface carries, and the UMEM frames it is given:
/// those that fill its RX ring and those that stock its free TX queue.
#[derive(Clone, Copy, Debug, PartialEq, Eq, Structural)]
pub struct QueuePlan {
    pub queue_id: u32,
    pub rx: bool,
    pub tx: bool,
    pub rx_frames: FrameRange,
    pub tx_frames: FrameRange,
}

/// How the UMEM and the rings are sized, and what each queue carries.
#[derive(Clone, Debug)]
pub struct SetupPlan {
    /// The number of frames in the UMEM.
    pub frame_count: u32,
    pub frame_size: u32,
    pub fill_ring_len: u32,
    pub completion_ring_len: u32,
    pub queues: Vec<QueuePlan>,
    /// The frames that no queue was given.
    pub frames_left: u32,
}

/// Whether queue `q` carries RX: with split queues only the odd ones do.
pub open spec fn queue_rx(split: bool, q: int) -> bool {
    !split || q % 2 == 1
}

/// Whether queue `q` carries TX: with split queues only the even ones do.
pub open spec fn queue_tx(split: bool, q: int) -> bool {
    !split || q % 2 == 0
}

/// The number of UMEM frames for `max_queues` queues: with split queues half
/// of them (rounded up) count the RX length and half (rounded down) the TX
/// length, otherwise every queue counts both.
pub open spec fn umem_frames(split: bool, rx: int, tx: int, max_queues: int) -> int {
    if split {
        if max_queues % 2 == 0 {
            (rx + tx) * (max_queues / 2)
        } else {
            rx * (max_queues / 2 + 1) + tx * (max_queues / 2)
        }
    } else {
        (rx + tx) * max_queues
    }
}

/// The frames that queue `q` takes for its RX ring.
pub open spec fn rx_part(split: bool, rx: int, q: int) -> int {
    if queue_rx(split, q) {
        rx
    } else {
        0
    }
}

/// The frames that queue `q` takes for its TX ring.
pub open spec fn tx_part(split: bool, tx: int, q: int) -> int {
    if queue_tx(split, q) {
        tx
    } else {
        0
    }
}

/// `x`, or `frames` when `x` is beyond: frames are handed out in order until
/// none is left.
pub open spec fn clip(x: int, frames: int) -> int {
    if x <= frames {
        x
    } else {
        frames
    }
}

/// The frames that the queues below `n` take: each RX queue takes the RX
/// length and each TX queue the TX length.
pub open spec fn frames_taken(split: bool, rx: int, tx: int, n: int) -> int
    decreases n,
{
    if n <= 0 {
        0
    } else {
        frames_taken(split, rx, tx, n - 1) + (if queue_rx(split, n - 1) {
            rx
        } else {
            0
        }) + (if queue_tx(split, n - 1) {
            tx
        } else {
            0
        })
    }
}

/// The sizes stay within `u32`, the width the rings and the UMEM are sized in.
pub open spec fn setup_fits(split: bool, rx: int, tx: int, max_queues: int) -> bool {
    &&& rx * 2 <= u32::MAX
    &&& rx + tx <= u32::MAX
    &&& umem_frames(split, rx, tx, max_queues) <= u32::MAX
}

impl Xdp {
    /// `p` is the plan for `max_queues` queues: the UMEM has a frame for every
    /// slot of the queues' rings, the fill ring is twice the RX ring, the
    /// completion ring is the TX ring, and each queue carries RX, TX or both.
    pub open spec fn is_plan(&self, max_queues: u32, p: SetupPlan) -> bool {
        &&& p.frame_count == umem_frames(
            self.split_queues,
            self.rx_queue_len as int,
            self.tx_queue_len as int,
            max_queues as int,
        )
        &&& p.frame_size == self.frame_size
        &&& p.fill_ring_len == self.rx_queue_len * 2
        &&& p.completion_ring_len == self.tx_queue_len
        &&& p.queues@.len() == max_queues
        &&& forall|q: int|
            0 <= q < max_queues ==> (#[trigger] p.queues@[q]).queue_id == q && p.queues@[q].rx
                == queue_rx(self.split_queues, q) && p.queues@[q].tx == queue_tx(
                self.split_queues,
                q,
            )
        &&& forall|q: int|
            0 <= q < max_queues ==> self.frames_of(p.frame_count as int, q, #[trigger] p.queues@[q])
        &&& p.frames_left == p.frame_count - clip(
            frames_taken(
                self.split_queues,
                self.rx_queue_len as int,
                self.tx_queue_len as int,
                max_queues as int,
            ),
            p.frame_count as int,
        )
    }

    /// Queue `q` is given, out of `frames`, the RX frames that follow those
    /// of the queues before it, and then its TX frames.
    pub open spec fn frames_of(&self, frames: int, q: int, plan: QueuePlan) -> bool {
        let before = frames_taken(
            self.split_queues,
            self.rx_queue_len as int,
            self.tx_queue_len as int,
            q,
        );
        let rx_end = before + rx_part(self.split_queues, self.rx_queue_len as int, q);
        let tx_end = rx_end + tx_part(self.split_queues, self.tx_queue_len as int, q);
        &&& plan.rx_frames.start == clip(before, frames)
        &&& plan.rx_frames.end == clip(rx_end, frames)
        &&& plan.tx_frames.start == clip(rx_end, frames)
        &&& plan.tx_frames.end == clip(tx_end, frames)
    }

    /// Plans the setup for an interface with `max_queues` queues; `None` when
    /// the sizes do not fit in `u32`.
    pub fn try_setup_plan(&self, max_queues: u32) -> (p: Option<SetupPlan>)
        ensures
            p is Some <==> setup_fits(
                self.split_queues,
                self.rx_queue_len as int,
                self.tx_queue_len as int,
                max_queues as int,
            ),
            p matches Some(plan) ==> self.is_plan(max_queues, plan),
    {
        let rx = self.rx_queue_len;
        let tx = self.tx_queue_len;
        if rx.checked_mul(2).is_none() {
            return None;
        }
        let both = match rx.checked_add(tx) {
            Some(b) => b,
            None => {
                return None;
            },
        };
        let frames = if self.split_queues {
            if max_queues % 2 == 0 {
                both.checked_mul(max_queues / 2)
            } else {
                proof {
                    lemma_mul_bound(rx as int, (max_queues / 2 + 1) as int);
                    lemma_mul_bound(tx as int, (max_queues / 2) as int);
                }
                match rx.checked_mul(max_queues / 2 + 1) {
                    Some(r) => match tx.checked_mul(max_queues / 2) {
                        Some(t) => r.checked_add(t),
                        None => None,
                    },
                    None => None,
                }
            }
        } else {
            both.checked_mul(max_queues)
        };
        if frames.is_none() {
            return None;
        }
        Some(self.setup_plan(max_queues))
    }

    /// Plans the setup for an interface with `max_queues` queues.
    pub fn setup_plan(&self, max_queues: u32) -> (p: SetupPlan)
        requires
            setup_fits(
                self.split_queues,
                self.rx_queue_len as int,
                self.tx_queue_len as int,
                max_queues as int,
            ),
        ensures
            self.is_plan(max_queues, p),
    {
        let frame_size = self.frame_size;
        let rx_queue_len = self.rx_queue_len;
        let tx_queue_len = self.tx_queue_len;
        let fill_ring_len = rx_queue_len * 2;
        let completion_ring_len = tx_queue_len;

        // if split_queues is true, then we assign half to TX and half to RX
        let frame_count = if self.split_queues {
            if max_queues % 2 == 0 {
                proof {
                    lemma_mul_bound((rx_queue_len + tx_queue_len) as int, (max_queues / 2) as int);
                }
                (rx_queue_len + tx_queue_len) * (max_queues / 2)
            } else {
                proof {
                    lemma_mul_bound(rx_queue_len as int, (max_queues / 2 + 1) as int);
                    lemma_mul_bound(tx_queue_len as int, (max_queues / 2) as int);
                }
                (rx_queue_len * (max_queues / 2 + 1)) + (tx_queue_len * (max_queues / 2))
            }
        } else {
            proof {
                lemma_mul_bound((rx_queue_len + tx_queue_len) as int, max_queues as int);
            }
            (rx_queue_len + tx_queue_len) * max_queues
        };

        let mut queues: Vec<QueuePlan> = Vec::new();
        let mut push_rx = true;
        let mut push_tx = false;
        let mut queue_id: u32 = 0;
        // the next frame to hand out
        let mut next: u32 = 0;

        // iterate over all of the queues and decide what each one carries
        while queue_id < max_queues
            invariant
                queue_id <= max_queues,
                queues@.len() == queue_id,
                self.split_queues ==> push_rx == (queue_id % 2 == 0) && push_tx == (queue_id % 2
                    == 1),
                forall|q: int|
                    0 <= q < queue_id ==> (#[trigger] queues@[q]).queue_id == q && queues@[q].rx
                        == queue_rx(self.split_queues, q) && queues@[q].tx == queue_tx(
                        self.split_queues,
                        q,
                    ),
                forall|q: int|
                    0 <= q < queue_id ==> self.frames_of(frame_count as int, q, #[trigger] queues@[q]),
                next == clip(
                    frames_taken(self.split_queues, rx_queue_len as int, tx_queue_len as int, queue_id as int),
                    frame_count as int,
                ),
                rx_queue_len == self.rx_queue_len,
                tx_queue_len == self.tx_queue_len,
            decreases max_queues - queue_id,
        {
            // if we're splitting the queues alternate between RX/TX
            if self.split_queues {
                push_rx = !push_rx;
                push_tx = !push_tx;
            } else {
                push_rx = true;
                push_tx = true;
            }
            let ghost before = frames_taken(
                self.split_queues,
                rx_queue_len as int,
                tx_queue_len as int,
                queue_id as int,
            );
            // the RX ring is filled from the next frames
            let rx_start = next;
            if push_rx {
                next = take_frames(next, rx_queue_len, frame_count);
            }
            let rx_frames = FrameRange { start: rx_start, end: next };
            // then the free TX queue is stocked
            let tx_start = next;
            if push_tx {
                next = take_frames(next, tx_queue_len, frame_count);
            }
            let tx_frames = FrameRange { start: tx_start, end: next };
            let plan = QueuePlan { queue_id, rx: push_rx, tx: push_tx, rx_frames, tx_frames };
            proof {
                lemma_clip_add(before, rx_part(self.split_queues, rx_queue_len as int, queue_id as int), frame_count as int);
                lemma_clip_add(
                    before + rx_part(self.split_queues, rx_queue_len as int, queue_id as int),
                    tx_part(self.split_queues, tx_queue_len as int, queue_id as int),
                    frame_count as int,
                );
                assert(self.frames_of(frame_count as int, queue_id as int, plan));
            }
            queues.push(plan);
            queue_id = queue_id + 1;
        }

        // make sure we've allocated all descriptors from the UMEM to a queue
        let frames_left = frame_count - next;
        SetupPlan {
            frame_count,
            frame_size,
            fill_ring_len,
            completion_ring_len,
            queues,
            frames_left,
        }
    }
}

/// Hands out up to `n` frames after `next`, out of `frames`; the frame that
/// follows them.
fn take_frames(next: u32, n: u32, frames: u32) -> (r: u32)
    requires
        next <= frames,
    ensures
        r == clip(next + n, frames as int),
{
    if n <= frames - next {
        next + n
    } else {
        frames
    }
}

/// Clipping once is enough: frames handed out past the end stay past it.
proof fn lemma_clip_add(x: int, n: int, frames: int)
    requires
        n >= 0,
        x >= 0,
        frames >= 0,
    ensures
        clip(clip(x, frames) + n, frames) == clip(x + n, frames),
        clip(x, frames) <= frames,
{
}

/// A product of naturals is a natural, and at least its first factor when
/// the second is positive.
proof fn lemma_mul_bound(a: int, b: int)
    requires
        a >= 0,
        b >= 0,
    ensures
        a * b >= 0,
        b >= 1 ==> a * b >= a,
{
    assert(a * b >= 0) by (nonlinear_arith)
        requires
            a >= 0,
            b >= 0,
    ;
    assert(b >= 1 ==> a * b >= a) by (nonlinear_arith)
        requires
            a >= 0,
            b >= 0,
    ;
}

/// The frames of the UMEM are exactly the frames that the queues take, so
/// every frame is handed to a queue and none is left: when the queues are not
/// split, when their number is even, or when RX and TX queues are of the same
/// length.
pub proof fn law_umem_frames_all_used(split: bool, rx: int, tx: int, max_queues: int)
    requires
        rx >= 0,
        tx >= 0,
        max_queues >= 0,
        !split || max_queues % 2 == 0 || rx == tx,
    ensures
        umem_frames(split, rx, tx, max_queues) == frames_taken(split, rx, tx, max_queues),
        clip(frames_taken(split, rx, tx, max_queues), umem_frames(split, rx, tx, max_queues))
            == umem_frames(split, rx, tx, max_queues),
{
    lemma_frames_taken(split, rx, tx, max_queues);
    if split {
        if max_queues % 2 == 0 {
            assert((rx + tx) * (max_queues / 2) == rx * (max_queues / 2) + tx * (max_queues / 2))
                by (nonlinear_arith);
        } else {
            assert(rx * (max_queues / 2 + 1) + tx * (max_queues / 2) == tx * (max_queues / 2 + 1)
                + rx * (max_queues / 2)) by (nonlinear_arith)
                requires
                    rx == tx,
            ;
        }
    } else {
        assert((rx + tx) * max_queues == rx * max_queues + tx * max_queues) by (nonlinear_arith);
    }
}

/// The frames taken by the first `n` queues in closed form.
proof fn lemma_frames_taken(split: bool, rx: int, tx: int, n: int)
    requires
        n >= 0,
    ensures
        !split ==> frames_taken(split, rx, tx, n) == rx * n + tx * n,
        split ==> frames_taken(split, rx, tx, n) == rx * (n / 2) + tx * ((n + 1) / 2),
    decreases n,
{
    if n > 0 {
        lemma_frames_taken(split, rx, tx, n - 1);
        assert(rx * (n - 1) + rx == rx * n) by (nonlinear_arith);
        assert(tx * (n - 1) + tx == tx * n) by (nonlinear_arith);
        if n % 2 == 0 {
            assert((n - 1) / 2 + 1 == n / 2 && n / 2 == (n + 1) / 2);
            assert(rx * ((n - 1) / 2) + rx == rx * (n / 2)) by (nonlinear_arith)
                requires
                    (n - 1) / 2 + 1 == n / 2,
            ;
        } else {
            assert((n - 1) / 2 == n / 2 && n / 2 + 1 == (n + 1) / 2);
            assert(tx * ((n - 1 + 1) / 2) + tx == tx * ((n + 1) / 2)) by (nonlinear_arith)
                requires
                    (n - 1 + 1) / 2 + 1 == (n + 1) / 2,
            ;
        }
    }
}

} // verus!
