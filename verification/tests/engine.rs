use sud::consume::{BufConsumer, Collector};
use sud::event::{Atom, Blob, Event, Text};
use sud::impls::map::Assoc;
use sud::{bytes, fill_buffer, fold_events, ints, FoldOutcome, Stack};

#[test]
fn list_serialize() {
    let mut stack = Stack::new();
    let a: &[&str] = &["abc", "def"][..];

    let mut c = Collector::new();
    let cur = stack.start();
    fold_events(&a, &mut stack, cur, &mut c);

    assert_eq!(
        c.events,
        [
            Event::SeqStart(Some(2)),
            Event::Atom(Atom::Str(Text::Borrowed("abc"))),
            Event::Atom(Atom::Str(Text::Borrowed("def"))),
            Event::SeqEnd,
        ]
    );
}

#[test]
fn list_try_serialize() {
    let mut stack = Stack::new();
    let a: &[&str] = &["abc", "def"][..];

    let mut buf = Vec::new();
    let cur = stack.start();
    let r = fill_buffer(&a, &mut stack, cur, &mut buf, 2);
    assert_eq!(r, FoldOutcome::Suspended);

    assert_eq!(
        buf,
        [
            Event::SeqStart(Some(2)),
            Event::Atom(Atom::Str(Text::Borrowed("abc"))),
        ]
    );

    buf.clear();

    let cur = stack.start();
    let r = fill_buffer(&a, &mut stack, cur, &mut buf, 2);
    assert_eq!(r, FoldOutcome::Complete);

    assert_eq!(
        buf,
        [Event::Atom(Atom::Str(Text::Borrowed("def"))), Event::SeqEnd,]
    );
}

#[test]
fn list_serialize_bytes() {
    let mut stack = Stack::new();
    let a: &[u8] = &b"abcdef"[..];

    let mut c = Collector::new();
    let cur = stack.start();
    fold_events(&a, &mut stack, cur, &mut c);

    assert_eq!(c.events, [Event::Atom(Atom::Bytes(Blob::Borrowed(b"abcdef")))]);
}

#[test]
fn hash() {
    let mut stack = Stack::new();
    let mut a: Assoc<&str, i32> = Assoc::new();
    a.push("abc", 1);
    a.push("def", 2);

    let mut c = Collector::new();
    let cur = stack.start();
    fold_events(&a, &mut stack, cur, &mut c);

    let order_a = [
        Event::MapStart(Some(2)),
        Event::Atom(Atom::Str(Text::Borrowed("abc"))),
        Event::Atom(Atom::I64(1)),
        Event::Atom(Atom::Str(Text::Borrowed("def"))),
        Event::Atom(Atom::I64(2)),
        Event::MapEnd,
    ];
    let order_b = [
        Event::MapStart(Some(2)),
        Event::Atom(Atom::Str(Text::Borrowed("def"))),
        Event::Atom(Atom::I64(2)),
        Event::Atom(Atom::Str(Text::Borrowed("abc"))),
        Event::Atom(Atom::I64(1)),
        Event::MapEnd,
    ];

    if c.events != order_a {
        assert_eq!(c.events, order_b);
    }
}

#[test]
fn btree() {
    let mut stack = Stack::new();
    let mut a: Assoc<&str, i32> = Assoc::new();
    a.push("abc", 1);
    a.push("def", 2);

    let mut c = Collector::new();
    let cur = stack.start();
    fold_events(&a, &mut stack, cur, &mut c);

    let exp = [
        Event::MapStart(Some(2)),
        Event::Atom(Atom::Str(Text::Borrowed("abc"))),
        Event::Atom(Atom::I64(1)),
        Event::Atom(Atom::Str(Text::Borrowed("def"))),
        Event::Atom(Atom::I64(2)),
        Event::MapEnd,
    ];
    assert_eq!(c.events, exp);
}

// Splitting the traversal at every possible point and concatenating the
// delivered segments yields the same events as one uninterrupted run.
#[test]
fn resume_at_every_cut() {
    let value: &[&str] = &["abc", "def"][..];

    let mut stack = Stack::new();
    let mut full = Collector::new();
    let cur = stack.start();
    fold_events(&value, &mut stack, cur, &mut full);
    assert_eq!(full.events.len(), 4);

    // after full consumption the position is terminal and is discarded,
    // so a resumption is meaningful only after a genuine suspension
    for cut in 0..full.events.len() {
        let mut stack = Stack::new();
        let mut first = Vec::new();
        let cur = stack.start();
        let r = fill_buffer(&value, &mut stack, cur, &mut first, cut);
        assert_eq!(r, FoldOutcome::Suspended);
        assert_eq!(first.len(), cut);

        let mut rest = Collector::new();
        let cur = stack.start();
        fold_events(&value, &mut stack, cur, &mut rest);

        let mut joined = first;
        joined.extend(rest.events);
        assert_eq!(joined, full.events);
    }
}

// A nested value stays well nested and every hint counts its own children.
#[test]
fn nested_well_formed() {
    let inner_a: Vec<u64> = vec![1, 2];
    let inner_b: Vec<u64> = vec![];
    let value: Vec<Vec<u64>> = vec![inner_a, inner_b];

    let mut stack = Stack::new();
    let mut c = Collector::new();
    let cur = stack.start();
    fold_events(&value, &mut stack, cur, &mut c);

    assert_eq!(
        c.events,
        [
            Event::SeqStart(Some(2)),
            Event::SeqStart(Some(2)),
            Event::Atom(Atom::U64(1)),
            Event::Atom(Atom::U64(2)),
            Event::SeqEnd,
            Event::SeqStart(Some(0)),
            Event::SeqEnd,
            Event::SeqEnd,
        ]
    );

    let mut depth: i64 = 0;
    for e in &c.events {
        match e {
            Event::SeqStart(_) | Event::MapStart(_) => depth += 1,
            Event::SeqEnd | Event::MapEnd => {
                depth -= 1;
                assert!(depth >= 0);
            }
            Event::Atom(_) => {}
        }
    }
    assert_eq!(depth, 0);
}

// Resuming a map mid-pair delivers the value next, never the key again.
#[test]
fn map_pair_atomicity() {
    let mut a: Assoc<&str, i32> = Assoc::new();
    a.push("abc", 1);
    a.push("def", 2);

    let mut stack = Stack::new();
    let mut first = Vec::new();
    let cur = stack.start();
    let r = fill_buffer(&a, &mut stack, cur, &mut first, 2);
    assert_eq!(r, FoldOutcome::Suspended);
    assert_eq!(
        first,
        [
            Event::MapStart(Some(2)),
            Event::Atom(Atom::Str(Text::Borrowed("abc"))),
        ]
    );

    let mut rest = Collector::new();
    let cur = stack.start();
    fold_events(&a, &mut stack, cur, &mut rest);
    assert_eq!(
        rest.events,
        [
            Event::Atom(Atom::I64(1)),
            Event::Atom(Atom::Str(Text::Borrowed("def"))),
            Event::Atom(Atom::I64(2)),
            Event::MapEnd,
        ]
    );
}

// Byte sequences collapse into a single bytes atom whatever their length.
#[test]
fn byte_specialization_empty() {
    let mut stack = Stack::new();
    let a: &[u8] = &[][..];

    let mut c = Collector::new();
    let cur = stack.start();
    fold_events(&a, &mut stack, cur, &mut c);

    assert_eq!(c.events, [Event::Atom(Atom::Bytes(Blob::Borrowed(&[])))]);
}

#[test]
fn empty_containers() {
    let mut stack = Stack::new();
    let a: &[&str] = &[][..];
    let mut c = Collector::new();
    let cur = stack.start();
    fold_events(&a, &mut stack, cur, &mut c);
    assert_eq!(c.events, [Event::SeqStart(Some(0)), Event::SeqEnd]);

    let mut stack = Stack::new();
    let m: Assoc<&str, i32> = Assoc::new();
    let mut c = Collector::new();
    let cur = stack.start();
    fold_events(&m, &mut stack, cur, &mut c);
    assert_eq!(c.events, [Event::MapStart(Some(0)), Event::MapEnd]);
}

// A detached atom compares equal to its borrowed source and survives the
// source value's destruction.
#[test]
fn detach_independence() {
    let source = String::from("abc");
    let borrowed = Atom::Str(Text::Borrowed(source.as_str()));
    let detached = borrowed.to_static();
    assert_eq!(detached, borrowed);

    drop(source);
    assert_eq!(detached, Atom::Str(Text::Borrowed("abc")));

    let owned_bytes = vec![1u8, 2, 3];
    let borrowed = Atom::Bytes(Blob::Borrowed(&owned_bytes));
    let detached = borrowed.into_static();
    drop(owned_bytes);
    assert_eq!(detached, Atom::Bytes(Blob::Borrowed(&[1, 2, 3])));
}

#[test]
fn detach_event() {
    let source = String::from("xyz");
    let ev = Event::Atom(Atom::Str(Text::Borrowed(source.as_str())));
    let kept = ev.to_static();
    assert_eq!(kept, ev);
    drop(source);
    assert_eq!(kept, Event::Atom(Atom::Str(Text::Borrowed("xyz"))));

    let hint = Event::SeqStart(Some(7));
    assert_eq!(hint.to_static(), Event::SeqStart(Some(7)));
    assert_eq!(hint.clone().into_static(), Event::SeqStart(Some(7)));
}

#[test]
fn bytes_and_ints() {
    let v = bytes(&[0x61, 0x62, 0x63, 0x64, 0x65, 0x66]);
    assert_eq!(v, [Event::Atom(Atom::Bytes(Blob::Borrowed(b"abcdef")))]);

    let v = ints(&[1, 2, 3, 4]);
    assert_eq!(
        v,
        [
            Event::SeqStart(Some(4)),
            Event::Atom(Atom::I64(1)),
            Event::Atom(Atom::I64(2)),
            Event::Atom(Atom::I64(3)),
            Event::Atom(Atom::I64(4)),
            Event::SeqEnd,
        ]
    );
}

#[test]
fn mixed_atoms() {
    let mut stack = Stack::new();
    let value: Vec<bool> = vec![true, false];
    let mut c = Collector::new();
    let cur = stack.start();
    fold_events(&value, &mut stack, cur, &mut c);
    assert_eq!(
        c.events,
        [
            Event::SeqStart(Some(2)),
            Event::Atom(Atom::Bool(true)),
            Event::Atom(Atom::Bool(false)),
            Event::SeqEnd,
        ]
    );

    let mut stack = Stack::new();
    let value: Vec<char> = vec!['a'];
    let mut c = Collector::new();
    let cur = stack.start();
    fold_events(&value, &mut stack, cur, &mut c);
    assert_eq!(
        c.events,
        [
            Event::SeqStart(Some(1)),
            Event::Atom(Atom::Char('a')),
            Event::SeqEnd,
        ]
    );
}

// The buffering consumer stops exactly at its capacity and leaves the
// remaining events for a later call.
#[test]
fn buffered_consumer_capacity() {
    let mut stack = Stack::new();
    let a: &[u64] = &[10, 20, 30][..];
    let mut consumer = BufConsumer { buf: Vec::new(), cap: 3 };
    let cur = stack.start();
    let out = sud::Serializer::try_fold(&a, &mut stack, cur, &mut consumer);
    assert_eq!(out, FoldOutcome::Suspended);
    assert_eq!(consumer.buf.len(), 3);
    assert_eq!(
        consumer.buf,
        [
            Event::SeqStart(Some(3)),
            Event::Atom(Atom::U64(10)),
            Event::Atom(Atom::U64(20)),
        ]
    );
}

#[test]
fn estimate_sizes() {
    let a: &[&str] = &["abc", "def"][..];
    assert_eq!(sud::Serializer::estimate_size(&a), 4);

    let b: &[u8] = &b"abcdef"[..];
    assert_eq!(sud::Serializer::estimate_size(&b), 1);

    let mut m: Assoc<&str, i32> = Assoc::new();
    m.push("abc", 1);
    assert_eq!(sud::Serializer::estimate_size(&m), 4);

    assert_eq!(sud::Serializer::estimate_size(&7u64), 1);
}

#[test]
fn event_conversions() {
    assert_eq!(Event::from(7u64), Event::Atom(Atom::U64(7)));
    assert_eq!(Event::from(-7i64), Event::Atom(Atom::I64(-7)));
    assert_eq!(Event::from(3usize), Event::Atom(Atom::U64(3)));
    assert_eq!(Event::from(-3isize), Event::Atom(Atom::I64(-3)));
    assert_eq!(Event::from(true), Event::Atom(Atom::Bool(true)));
    assert_eq!(Event::from('x'), Event::Atom(Atom::Char('x')));
    assert_eq!(Event::from(()), Event::Atom(Atom::Null));
    assert_eq!(Event::from("hi"), Event::Atom(Atom::Str(Text::Borrowed("hi"))));
    assert_eq!(
        Event::from(String::from("hi")),
        Event::Atom(Atom::Str(Text::Borrowed("hi")))
    );
    assert_eq!(
        Event::from(&b"zz"[..]),
        Event::Atom(Atom::Bytes(Blob::Borrowed(b"zz")))
    );
    assert_eq!(Event::from(Atom::U64(1)), Event::Atom(Atom::U64(1)));
}

#[test]
fn owned_string_elements() {
    let mut stack = Stack::new();
    let value: Vec<String> = vec![String::from("abc")];
    let mut c = Collector::new();
    let cur = stack.start();
    fold_events(&value, &mut stack, cur, &mut c);
    assert_eq!(
        c.events,
        [
            Event::SeqStart(Some(1)),
            Event::Atom(Atom::Str(Text::Borrowed("abc"))),
            Event::SeqEnd,
        ]
    );
}

#[test]
fn resume_at_every_cut_nested() {
    let inner_a: Vec<u64> = vec![1, 2];
    let inner_b: Vec<u64> = vec![];
    let value: Vec<Vec<u64>> = vec![inner_a, inner_b];

    let mut stack = Stack::new();
    let mut full = Collector::new();
    let cur = stack.start();
    fold_events(&value, &mut stack, cur, &mut full);
    assert_eq!(full.events.len(), 8);

    for cut in 0..full.events.len() {
        let mut stack = Stack::new();
        let mut first = Vec::new();
        let cur = stack.start();
        let r = fill_buffer(&value, &mut stack, cur, &mut first, cut);
        assert_eq!(r, FoldOutcome::Suspended);
        assert_eq!(first.len(), cut);

        let mut rest = Collector::new();
        let cur = stack.start();
        fold_events(&value, &mut stack, cur, &mut rest);

        let mut joined = first;
        joined.extend(rest.events);
        assert_eq!(joined, full.events);
    }
}

#[test]
fn resume_at_every_cut_map() {
    let mut value: Assoc<&str, i32> = Assoc::new();
    value.push("abc", 1);
    value.push("def", 2);

    let mut stack = Stack::new();
    let mut full = Collector::new();
    let cur = stack.start();
    fold_events(&value, &mut stack, cur, &mut full);
    assert_eq!(full.events.len(), 6);

    for cut in 0..full.events.len() {
        let mut stack = Stack::new();
        let mut first = Vec::new();
        let cur = stack.start();
        let r = fill_buffer(&value, &mut stack, cur, &mut first, cut);
        assert_eq!(r, FoldOutcome::Suspended);
        assert_eq!(first.len(), cut);

        let mut rest = Collector::new();
        let cur = stack.start();
        fold_events(&value, &mut stack, cur, &mut rest);

        let mut joined = first;
        joined.extend(rest.events);
        assert_eq!(joined, full.events);
    }
}

// Resuming in more than two steps walks the same stream one slice at a time.
#[test]
fn resume_in_single_steps() {
    let value: &[&str] = &["abc", "def"][..];

    let mut stack = Stack::new();
    let mut full = Collector::new();
    let cur = stack.start();
    fold_events(&value, &mut stack, cur, &mut full);

    let mut stack = Stack::new();
    let mut joined: Vec<Event> = Vec::new();
    loop {
        let mut step = Vec::new();
        let cur = stack.start();
        let r = fill_buffer(&value, &mut stack, cur, &mut step, 1);
        joined.extend(step);
        if r == FoldOutcome::Complete {
            break;
        }
    }
    assert_eq!(joined, full.events);
}
