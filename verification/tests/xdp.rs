use s2n_quic_sync::xdp::{FrameRange, InvalidXdpMode, QueuePlan, Xdp, XdpMode};

fn frames(start: u32, end: u32) -> FrameRange {
    FrameRange { start, end }
}

fn options(split_queues: bool) -> Xdp {
    Xdp {
        interface: String::from("lo"),
        tx_queue_len: 1024,
        rx_queue_len: 2048,
        frame_size: 4096,
        xdp_stats: false,
        bpf_trace: false,
        xdp_mode: XdpMode::Auto,
        split_queues,
    }
}

#[test]
fn xdp_mode_names() {
    assert_eq!(XdpMode::parse("auto"), Ok(XdpMode::Auto));
    assert_eq!(XdpMode::parse("skb"), Ok(XdpMode::Skb));
    assert_eq!(XdpMode::parse("drv"), Ok(XdpMode::Drv));
    assert_eq!(XdpMode::parse("driver"), Ok(XdpMode::Drv));
    assert_eq!(XdpMode::parse("hw"), Ok(XdpMode::Hw));
    assert_eq!(XdpMode::parse("hardware"), Ok(XdpMode::Hw));
    assert_eq!(XdpMode::parse("Auto"), Err(InvalidXdpMode));
    assert_eq!(XdpMode::parse(""), Err(InvalidXdpMode));
    assert_eq!(XdpMode::parse("drive"), Err(InvalidXdpMode));
    assert_eq!(XdpMode::parse("hw "), Err(InvalidXdpMode));
}

#[test]
fn setup_plan_shared_queues() {
    let plan = options(false).setup_plan(4);
    assert_eq!(plan.frame_count, (2048 + 1024) * 4);
    assert_eq!(plan.frame_size, 4096);
    assert_eq!(plan.fill_ring_len, 4096);
    assert_eq!(plan.completion_ring_len, 1024);
    assert_eq!(plan.queues.len(), 4);
    for (i, q) in plan.queues.iter().enumerate() {
        // every queue takes its RX frames, then its TX frames
        let start = i as u32 * 3072;
        assert_eq!(
            *q,
            QueuePlan {
                queue_id: i as u32,
                rx: true,
                tx: true,
                rx_frames: frames(start, start + 2048),
                tx_frames: frames(start + 2048, start + 3072),
            }
        );
    }
    assert_eq!(plan.frames_left, 0);
}

#[test]
fn setup_plan_split_queues() {
    let plan = options(true).setup_plan(4);
    assert_eq!(plan.frame_count, (2048 + 1024) * 2);
    let expected = [
        QueuePlan {
            queue_id: 0,
            rx: false,
            tx: true,
            rx_frames: frames(0, 0),
            tx_frames: frames(0, 1024),
        },
        QueuePlan {
            queue_id: 1,
            rx: true,
            tx: false,
            rx_frames: frames(1024, 3072),
            tx_frames: frames(3072, 3072),
        },
        QueuePlan {
            queue_id: 2,
            rx: false,
            tx: true,
            rx_frames: frames(3072, 3072),
            tx_frames: frames(3072, 4096),
        },
        QueuePlan {
            queue_id: 3,
            rx: true,
            tx: false,
            rx_frames: frames(4096, 6144),
            tx_frames: frames(6144, 6144),
        },
    ];
    assert_eq!(plan.queues, expected.to_vec());
    assert_eq!(plan.frames_left, 0);

    // an odd number of queues counts the RX length once more, but the extra
    // queue carries TX: frames are left over
    let plan = options(true).setup_plan(3);
    assert_eq!(plan.frame_count, 2048 * 2 + 1024);
    assert_eq!(plan.queues.len(), 3);
    assert!(!plan.queues[2].rx && plan.queues[2].tx);
    assert_eq!(plan.queues[2].tx_frames, frames(3072, 4096));
    assert_eq!(plan.frames_left, 1024);

    // with a longer TX ring the last queue runs out of frames
    let mut o = options(true);
    o.rx_queue_len = 1024;
    o.tx_queue_len = 2048;
    let plan = o.setup_plan(3);
    assert_eq!(plan.frame_count, 1024 * 2 + 2048);
    assert_eq!(plan.queues[2].tx_frames, frames(3072, 4096));
    assert_eq!(plan.frames_left, 0);

    // no queues, no frames
    let plan = options(false).setup_plan(0);
    assert_eq!(plan.frame_count, 0);
    assert!(plan.queues.is_empty());
}

#[test]
fn try_setup_plan_refuses_overflowing_sizes() {
    let mut o = options(false);
    assert!(o.try_setup_plan(4).is_some());
    // the fill ring is twice the RX ring
    o.rx_queue_len = u32::MAX / 2 + 1;
    o.tx_queue_len = 0;
    assert!(o.try_setup_plan(1).is_none());
    // the UMEM counts both rings on every queue
    o.rx_queue_len = 1 << 20;
    o.tx_queue_len = 1 << 20;
    assert!(o.try_setup_plan(2047).is_some());
    assert!(o.try_setup_plan(2048).is_none());
    // split queues count each ring on half of them
    o.split_queues = true;
    assert!(o.try_setup_plan(4094).is_some());
    let plan = o.try_setup_plan(3).unwrap();
    assert_eq!(plan.frame_count, (1 << 20) * 3);
    assert_eq!(plan.fill_ring_len, 1 << 21);
}
