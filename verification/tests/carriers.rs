use sud::consume::BufConsumer;
use sud::flow::{Flow, Stall, Step, Try};
use sud::{try_for_each_event, Stack};

#[test]
fn result_carrier() {
    assert!(matches!(
        <Result<u32, &str> as Try>::from_continue(5).branch(),
        Flow::Continue(5)
    ));
    assert!(matches!(
        <Result<u32, &str> as Try>::from_break("stop").branch(),
        Flow::Break("stop")
    ));
    assert_eq!(<Result<u32, &str> as Try>::from_continue(5), Ok(5));
    assert_eq!(<Result<u32, &str> as Try>::from_break("stop"), Err("stop"));
}

#[test]
fn option_carrier() {
    assert!(matches!(<Option<u32> as Try>::from_continue(5).branch(), Flow::Continue(5)));
    assert!(matches!(<Option<u32> as Try>::from_break(()).branch(), Flow::Break(())));
    assert_eq!(<Option<u32> as Try>::from_continue(5), Some(5));
    assert_eq!(<Option<u32> as Try>::from_break(()), None::<u32>);
}

#[test]
fn step_carrier() {
    assert!(matches!(<Step<u32, &str> as Try>::from_continue(5), Step::Ready(5)));
    assert!(matches!(
        <Step<u32, &str> as Try>::from_break(Stall::Pending),
        Step::Pending
    ));
    assert!(matches!(
        <Step<u32, &str> as Try>::from_break(Stall::Failed("io")),
        Step::Failed("io")
    ));
    assert!(matches!(Step::<u32, &str>::Ready(7).branch(), Flow::Continue(7)));
    assert!(matches!(
        Step::<u32, &str>::Pending.branch(),
        Flow::Break(Stall::Pending)
    ));
    assert!(matches!(
        Step::<u32, &str>::Failed("io").branch(),
        Flow::Break(Stall::Failed("io"))
    ));
}

#[test]
fn traversal_through_carrier() {
    let a: &[u64] = &[1, 2][..];

    // a consumer roomy enough: the traversal completes
    let mut stack = Stack::new();
    let mut consumer = BufConsumer { buf: Vec::new(), cap: 16 };
    let cur = stack.start();
    let r: Result<(), &str> = try_for_each_event(&a, &mut stack, cur, &mut consumer, "full");
    assert_eq!(r, Ok(()));
    assert_eq!(consumer.buf.len(), 4);

    // a consumer with no room: the traversal suspends with the break payload
    let mut stack = Stack::new();
    let mut consumer = BufConsumer { buf: Vec::new(), cap: 0 };
    let cur = stack.start();
    let r: Result<(), &str> = try_for_each_event(&a, &mut stack, cur, &mut consumer, "full");
    assert_eq!(r, Err("full"));
    assert!(consumer.buf.is_empty());

    // the pending/ready carrier reports backpressure the same way
    let mut stack = Stack::new();
    let mut consumer = BufConsumer { buf: Vec::new(), cap: 1 };
    let cur = stack.start();
    let r: Step<(), &str> = try_for_each_event(&a, &mut stack, cur, &mut consumer, Stall::Pending);
    assert!(matches!(r, Step::Pending));
    assert_eq!(consumer.buf.len(), 1);
}
