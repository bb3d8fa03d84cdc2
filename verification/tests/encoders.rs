use sud::cbor::CborSerializer;
use sud::consume::Collector;
use sud::event::{Atom, Blob, Event, Text};
use sud::impls::map::Assoc;
use sud::json::JsonSerializer;
use sud::{fold_events, EncodeError, Stack};

fn events_of_strs(pairs: &[(&'static str, i32)]) -> Vec<Event<'static>> {
    let mut a: Assoc<&str, i32> = Assoc::new();
    for (k, v) in pairs {
        a.push(*k, *v);
    }
    let mut stack = Stack::new();
    let mut c = Collector::new();
    let cur = stack.start();
    fold_events(&a, &mut stack, cur, &mut c);
    c.events.into_iter().map(|e| e.into_static()).collect()
}

#[test]
fn int_slice() {
    let data = [1, 2, 3, 4];

    let mut stack = Stack::new();
    let mut c = Collector::new();
    let cur = stack.start();
    fold_events(&data, &mut stack, cur, &mut c);

    let mut serializer = JsonSerializer::new(Vec::new());
    for event in c.events {
        serializer.write(event).unwrap();
    }

    assert_eq!(serializer.depth(), 0);
    let output = String::from_utf8(serializer.out).unwrap();
    assert_eq!(output, "[1,2,3,4]");
}

#[test]
fn str_map() {
    let events = events_of_strs(&[("abc", 1), ("def", 2)]);

    let mut serializer = JsonSerializer::new(Vec::new());
    for event in events {
        serializer.write(event).unwrap();
    }

    let order_a = r#"{"abc":1,"def":2}"#;
    let order_b = r#"{"def":2,"abc":1}"#;

    assert_eq!(serializer.depth(), 0);
    let output = String::from_utf8(serializer.out).unwrap();
    if output != order_a {
        assert_eq!(output, order_b);
    }
}

#[test]
fn lib_str_map() {
    let mut data: Assoc<&str, &str> = Assoc::new();
    data.push("a", "A");
    data.push("b", "B");
    data.push("c", "C");
    data.push("d", "D");
    data.push("e", "E");

    let mut stack = Stack::new();
    let mut c = Collector::new();
    let cur = stack.start();
    fold_events(&data, &mut stack, cur, &mut c);

    let mut serializer = CborSerializer::new(Vec::new());
    for event in c.events {
        serializer.write(event).unwrap();
    }

    assert_eq!(
        serializer.out,
        hex::decode("a56161614161626142616361436164614461656145").unwrap()
    );
    assert_eq!(serializer.depth(), 0);
}

#[test]
fn cbor_number_widths() {
    let cases: &[(u64, &str)] = &[
        (0, "00"),
        (0x17, "17"),
        (0x18, "1818"),
        (0xff, "18ff"),
        (0x100, "190100"),
        (0xffff, "19ffff"),
        (0x10000, "1a00010000"),
        (0xffff_ffff, "1affffffff"),
        (0x1_0000_0000, "1b0000000100000000"),
        (u64::MAX, "1bffffffffffffffff"),
    ];
    for (n, hex_bytes) in cases {
        let mut s = CborSerializer::new(Vec::new());
        s.write(Event::Atom(Atom::U64(*n))).unwrap();
        assert_eq!(s.out, hex::decode(hex_bytes).unwrap(), "value {}", n);
    }
}

#[test]
fn cbor_negative_and_bool() {
    let mut s = CborSerializer::new(Vec::new());
    s.write(Event::Atom(Atom::I64(-1))).unwrap();
    s.write(Event::Atom(Atom::I64(-500))).unwrap();
    s.write(Event::Atom(Atom::I64(23))).unwrap();
    s.write(Event::Atom(Atom::Bool(false))).unwrap();
    s.write(Event::Atom(Atom::Bool(true))).unwrap();
    s.write(Event::Atom(Atom::Null)).unwrap();
    assert_eq!(s.out, hex::decode("203901f317f4f5f6").unwrap());
}

#[test]
fn cbor_indeterminate_length() {
    let mut s = CborSerializer::new(Vec::new());
    s.write(Event::SeqStart(None)).unwrap();
    s.write(Event::Atom(Atom::U64(1))).unwrap();
    s.write(Event::SeqEnd).unwrap();
    assert_eq!(s.out, hex::decode("9f01ff").unwrap());

    let mut s = CborSerializer::new(Vec::new());
    s.write(Event::MapStart(None)).unwrap();
    s.write(Event::Atom(Atom::U64(1))).unwrap();
    s.write(Event::Atom(Atom::U64(2))).unwrap();
    s.write(Event::MapEnd).unwrap();
    assert_eq!(s.out, hex::decode("bf0102ff").unwrap());
}

#[test]
fn cbor_float_bits_and_char() {
    let mut s = CborSerializer::new(Vec::new());
    let bits = (1.5f64).to_bits();
    s.write(Event::Atom(Atom::F64Bits(bits))).unwrap();
    assert_eq!(s.out, hex::decode("fb3ff8000000000000").unwrap());

    let mut s = CborSerializer::new(Vec::new());
    s.write(Event::Atom(Atom::Char('\u{20ac}'))).unwrap();
    assert_eq!(s.out, hex::decode("63e282ac").unwrap());
}

#[test]
fn json_escaping() {
    let mut s = JsonSerializer::new(Vec::new());
    s.write(Event::Atom(Atom::Str(Text::Borrowed("a\"b\\c\nd\u{1}e"))))
        .unwrap();
    let output = String::from_utf8(s.out).unwrap();
    assert_eq!(output, "\"a\\\"b\\\\c\\nd\\u0001e\"");
}

#[test]
fn json_atoms() {
    let mut s = JsonSerializer::new(Vec::new());
    s.write(Event::SeqStart(Some(6))).unwrap();
    s.write(Event::Atom(Atom::Null)).unwrap();
    s.write(Event::Atom(Atom::Bool(true))).unwrap();
    s.write(Event::Atom(Atom::Bool(false))).unwrap();
    s.write(Event::Atom(Atom::I64(i64::MIN))).unwrap();
    s.write(Event::Atom(Atom::U64(u64::MAX))).unwrap();
    s.write(Event::Atom(Atom::Char('é'))).unwrap();
    s.write(Event::SeqEnd).unwrap();
    let output = String::from_utf8(s.out).unwrap();
    assert_eq!(
        output,
        "[null,true,false,-9223372036854775808,18446744073709551615,\"é\"]"
    );
}

#[test]
fn json_byte_atom() {
    let mut s = JsonSerializer::new(Vec::new());
    s.write(Event::Atom(Atom::Bytes(Blob::Borrowed(&[0, 10, 200]))))
        .unwrap();
    let output = String::from_utf8(s.out).unwrap();
    assert_eq!(output, "[0,10,200]");
}

#[test]
fn json_nested_containers() {
    let inner_a: Vec<u64> = vec![1];
    let inner_b: Vec<u64> = vec![2, 3];
    let value: Vec<Vec<u64>> = vec![inner_a, inner_b];

    let mut stack = Stack::new();
    let mut c = Collector::new();
    let cur = stack.start();
    fold_events(&value, &mut stack, cur, &mut c);

    let mut s = JsonSerializer::new(Vec::new());
    for event in c.events {
        s.write(event).unwrap();
    }
    assert_eq!(s.depth(), 0);
    let output = String::from_utf8(s.out).unwrap();
    assert_eq!(output, "[[1],[2,3]]");
}

#[test]
fn json_unsupported_atom() {
    let mut s = JsonSerializer::new(Vec::new());
    let r = s.write(Event::Atom(Atom::F64Bits(0)));
    assert_eq!(r, Err(EncodeError::UnsupportedAtom));
    assert!(s.out.is_empty());
    assert_eq!(s.depth(), 0);
}

#[test]
fn cbor_text_atoms() {
    let mut s = CborSerializer::new(Vec::new());
    s.write(Event::Atom(Atom::Str(Text::Borrowed("abc")))).unwrap();
    s.write(Event::Atom(Atom::Bytes(Blob::Borrowed(b"xy")))).unwrap();
    assert_eq!(s.out, hex::decode("63616263427879").unwrap());
}

#[test]
fn json_raw_value_hook() {
    let mut enc = sud::json::JsonEncoder::default();
    let mut out = Vec::new();
    enc.write(Event::SeqStart(Some(2)), &mut out).unwrap();
    enc.write(Event::Atom(Atom::U64(1)), &mut out).unwrap();
    enc.write_raw_value(b"2.5", &mut out);
    enc.write(Event::SeqEnd, &mut out).unwrap();
    assert_eq!(String::from_utf8(out).unwrap(), "[1,2.5]");
}
