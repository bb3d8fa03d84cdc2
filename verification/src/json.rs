use vstd::prelude::*;
use vstd::string::StringSliceAdditionalSpecFns;

use crate::event::{char_utf8, Atom, AtomModel, Event, EventModel};
use crate::EncodeError;

verus! {

pub const BB: u8 = 0x62u8;

pub const TT: u8 = 0x74u8;

pub const NN: u8 = 0x6eu8;

pub const FF: u8 = 0x66u8;

pub const RR: u8 = 0x72u8;

pub const QU: u8 = 0x22u8;

pub const BS: u8 = 0x5cu8;

pub const UU: u8 = 0x75u8;

/// The escape class of a byte inside a text: the letter of its
/// two-character escape, `UU` for the remaining control bytes that take
/// the six-character numeric escape, and 0 for a byte copied verbatim.
pub open spec fn escape_code(b: u8) -> u8 {
    if b == 0x08 {
        BB
    } else if b == 0x09 {
        TT
    } else if b == 0x0a {
        NN
    } else if b == 0x0c {
        FF
    } else if b == 0x0d {
        RR
    } else if b < 0x20 {
        UU
    } else if b == QU {
        QU
    } else if b == BS {
        BS
    } else {
        0
    }
}

/// The escape class of a byte, computed.
pub fn escape_of(b: u8) -> (r: u8)
    ensures
        r == escape_code(b),
{
    if b == 0x08 {
        BB
    } else if b == 0x09 {
        TT
    } else if b == 0x0a {
        NN
    } else if b == 0x0c {
        FF
    } else if b == 0x0d {
        RR
    } else if b < 0x20 {
        UU
    } else if b == QU {
        QU
    } else if b == BS {
        BS
    } else {
        0
    }
}

/// The lower-case hexadecimal digit of a value below 16.
pub open spec fn hex_digit(n: u8) -> u8 {
    if n < 10 {
        (0x30 + n) as u8
    } else {
        (0x57 + n) as u8
    }
}

/// What one byte of a text contributes to the escaped output: itself, a
/// two-character escape, or the six-character numeric escape.
pub open spec fn escape_expansion(b: u8) -> Seq<u8> {
    let c = escape_code(b);
    if c == 0 {
        seq![b]
    } else if c == UU {
        seq![BS, UU, 0x30u8, 0x30u8, hex_digit(b >> 4), hex_digit(b & 0xf)]
    } else {
        seq![BS, c]
    }
}

/// The escaped form of a whole byte run.
pub open spec fn escaped_bytes(s: Seq<u8>) -> Seq<u8>
    decreases s.len(),
{
    if s.len() == 0 {
        Seq::empty()
    } else {
        escape_expansion(s[0]) + escaped_bytes(s.drop_first())
    }
}

/// Escaping distributes over concatenation.
pub proof fn lemma_escaped_concat(a: Seq<u8>, b: Seq<u8>)
    ensures
        escaped_bytes(a + b) == escaped_bytes(a) + escaped_bytes(b),
    decreases a.len(),
{
    if a.len() == 0 {
        assert(a + b =~= b);
        assert(escaped_bytes(a) + escaped_bytes(b) =~= escaped_bytes(b));
    } else {
        assert((a + b).drop_first() =~= a.drop_first() + b);
        lemma_escaped_concat(a.drop_first(), b);
        assert(escaped_bytes(a + b) =~= escaped_bytes(a) + escaped_bytes(b));
    }
}

/// A run of bytes that need no escape is copied verbatim.
pub proof fn lemma_escaped_verbatim(s: Seq<u8>)
    requires
        forall|i: int| 0 <= i < s.len() ==> escape_code(#[trigger] s[i]) == 0,
    ensures
        escaped_bytes(s) == s,
    decreases s.len(),
{
    if s.len() > 0 {
        lemma_escaped_verbatim(s.drop_first());
        assert(escaped_bytes(s) =~= s);
    }
}

/// A character escape code: the named two-character escapes and the
/// six-character numeric escape of the other control bytes.
pub enum CharEscape {
    /// An escaped quote.
    Quote,
    /// An escaped reverse solidus.
    ReverseSolidus,
    /// An escaped backspace character.
    Backspace,
    /// An escaped form feed character.
    FormFeed,
    /// An escaped line feed character.
    LineFeed,
    /// An escaped carriage return character.
    CarriageReturn,
    /// An escaped tab character.
    Tab,
    /// An escaped control character of the remaining kind, carrying the
    /// byte it stands for.
    AsciiControl(u8),
}

/// The bytes an escape code writes.
pub open spec fn escape_seq(ce: CharEscape) -> Seq<u8> {
    match ce {
        CharEscape::Quote => seq![BS, QU],
        CharEscape::ReverseSolidus => seq![BS, BS],
        CharEscape::Backspace => seq![BS, BB],
        CharEscape::FormFeed => seq![BS, FF],
        CharEscape::LineFeed => seq![BS, NN],
        CharEscape::CarriageReturn => seq![BS, RR],
        CharEscape::Tab => seq![BS, TT],
        CharEscape::AsciiControl(b) => seq![
            BS,
            UU,
            0x30u8,
            0x30u8,
            hex_digit(b >> 4),
            hex_digit(b & 0xf),
        ],
    }
}

impl CharEscape {
    /// The escape a nonzero escape class denotes for the given byte.
    pub fn from_escape_table(escape: u8, byte: u8) -> (r: CharEscape)
        requires
            escape == escape_code(byte),
            escape != 0,
        ensures
            escape_seq(r) == escape_expansion(byte),
    {
        if escape == BB {
            CharEscape::Backspace
        } else if escape == TT {
            CharEscape::Tab
        } else if escape == NN {
            CharEscape::LineFeed
        } else if escape == FF {
            CharEscape::FormFeed
        } else if escape == RR {
            CharEscape::CarriageReturn
        } else if escape == QU {
            CharEscape::Quote
        } else if escape == BS {
            CharEscape::ReverseSolidus
        } else {
            CharEscape::AsciiControl(byte)
        }
    }
}

/// Writes a character escape code to the output.
pub fn write_char_escape(out: &mut Vec<u8>, char_escape: CharEscape)
    ensures
        final(out)@ == old(out)@ + escape_seq(char_escape),
{
    let ghost before = out@;
    match char_escape {
        CharEscape::Quote => {
            out.push(BS);
            out.push(QU);
        },
        CharEscape::ReverseSolidus => {
            out.push(BS);
            out.push(BS);
        },
        CharEscape::Backspace => {
            out.push(BS);
            out.push(BB);
        },
        CharEscape::FormFeed => {
            out.push(BS);
            out.push(FF);
        },
        CharEscape::LineFeed => {
            out.push(BS);
            out.push(NN);
        },
        CharEscape::CarriageReturn => {
            out.push(BS);
            out.push(RR);
        },
        CharEscape::Tab => {
            out.push(BS);
            out.push(TT);
        },
        CharEscape::AsciiControl(byte) => {
            proof {
                assert(byte >> 4 < 16 && byte & 0xf < 16) by (bit_vector);
            }
            out.push(BS);
            out.push(UU);
            out.push(0x30);
            out.push(0x30);
            let hi = byte >> 4;
            let lo = byte & 0xf;
            out.push(if hi < 10 {
                0x30 + hi
            } else {
                0x57 + hi
            });
            out.push(if lo < 10 {
                0x30 + lo
            } else {
                0x57 + lo
            });
        },
    }
    proof {
        assert(out@ =~= before + escape_seq(char_escape));
    }
}

/// Writes the escaped contents of a text, copying maximal verbatim runs
/// in one block and expanding each escaped byte in place.
pub fn format_escaped_str_contents(out: &mut Vec<u8>, value: &str)
    ensures
        final(out)@ == old(out)@ + escaped_bytes(value.spec_bytes()),
{
    format_escaped_bytes(out, value.as_bytes());
}

/// Writes the escaped form of a byte run, as the contents of a quoted
/// string.
pub fn format_escaped_bytes(out: &mut Vec<u8>, bytes: &[u8])
    ensures
        final(out)@ == old(out)@ + escaped_bytes(bytes@),
{
    let ghost before = out@;
    let n = bytes.len();
    let mut start: usize = 0;
    let mut i: usize = 0;
    while i < n
        invariant
            0 <= start <= i <= n,
            n == bytes@.len(),
            out@ == before + escaped_bytes(bytes@.take(start as int)),
            forall|j: int| start <= j < i ==> escape_code(#[trigger] bytes@[j]) == 0,
        decreases n - i,
    {
        let byte = *vstd::slice::slice_index_get(bytes, i);
        let escape = escape_of(byte);
        if escape != 0 {
            if start < i {
                let run = vstd::slice::slice_subrange(bytes, start, i);
                out.extend_from_slice(run);
                proof {
                    assert(bytes@.take(i as int) =~= bytes@.take(start as int) + run@);
                    lemma_escaped_concat(bytes@.take(start as int), run@);
                    lemma_escaped_verbatim(run@);
                }
            } else {
                proof {
                    assert(bytes@.take(i as int) =~= bytes@.take(start as int));
                }
            }
            let char_escape = CharEscape::from_escape_table(escape, byte);
            write_char_escape(out, char_escape);
            proof {
                assert(bytes@.take(i + 1) =~= bytes@.take(i as int) + seq![byte]);
                lemma_escaped_concat(bytes@.take(i as int), seq![byte]);
                assert(seq![byte].drop_first() =~= Seq::<u8>::empty());
                assert(escaped_bytes(Seq::<u8>::empty()) =~= Seq::<u8>::empty());
                assert(escaped_bytes(seq![byte]) == escape_expansion(seq![byte][0])
                    + escaped_bytes(seq![byte].drop_first()));
                assert(escape_expansion(byte) + Seq::<u8>::empty() =~= escape_expansion(
                    byte,
                ));
                assert(escaped_bytes(seq![byte]) =~= escape_expansion(byte));
            }
            start = i + 1;
        }
        i += 1;
    }
    if start < n {
        let run = vstd::slice::slice_subrange(bytes, start, n);
        out.extend_from_slice(run);
        proof {
            assert(bytes@.take(n as int) =~= bytes@.take(start as int) + run@);
            lemma_escaped_concat(bytes@.take(start as int), run@);
            lemma_escaped_verbatim(run@);
        }
    }
    proof {
        assert(bytes@.take(n as int) =~= bytes@);
        assert(out@ =~= before + escaped_bytes(bytes@));
    }
}

/// Writes a text as a quoted, escaped string.
pub fn format_escaped_str(out: &mut Vec<u8>, value: &str)
    ensures
        final(out)@ == old(out)@ + seq![QU] + escaped_bytes(value.spec_bytes()) + seq![QU],
{
    let ghost before = out@;
    out.push(QU);
    format_escaped_str_contents(out, value);
    out.push(QU);
    proof {
        assert(out@ =~= before + seq![QU] + escaped_bytes(value.spec_bytes()) + seq![QU]);
    }
}

/// Decimal digits of a value, most significant first.
pub open spec fn dec_digits(n: u64) -> Seq<u8>
    decreases n,
{
    if n < 10 {
        seq![(0x30 + n) as u8]
    } else {
        dec_digits(n / 10).push((0x30 + n % 10) as u8)
    }
}

/// Relies on itoa::Buffer::format: the decimal representation of an
/// unsigned integer, digits only, as `Display` gives it.
#[verifier::external_body]
fn format_u64(n: u64) -> (r: Vec<u8>)
    ensures
        r@ == dec_digits(n),
{
    let mut buf = itoa::Buffer::new();
    buf.format(n).as_bytes().to_vec()
}

/// The byte-array rendering of a byte-string atom, element by element.
pub open spec fn byte_list_upto(b: Seq<u8>, k: int) -> Seq<u8>
    decreases k,
{
    if 0 < k <= b.len() {
        byte_list_upto(b, k - 1) + (if k == 1 {
            dec_digits(b[0] as u64)
        } else {
            seq![0x2cu8] + dec_digits(b[k - 1] as u64)
        })
    } else {
        Seq::empty()
    }
}

/// The human-readable rendering of one leaf value. A floating-point atom
/// has no rendering here: the engine carries only its bit pattern, and
/// turning that into decimal text is the caller's concern.
pub open spec fn json_atom_bytes(a: AtomModel) -> Seq<u8> {
    match a {
        AtomModel::Null => seq![0x6eu8, 0x75u8, 0x6cu8, 0x6cu8],
        AtomModel::Bool(true) => seq![0x74u8, 0x72u8, 0x75u8, 0x65u8],
        AtomModel::Bool(false) => seq![0x66u8, 0x61u8, 0x6cu8, 0x73u8, 0x65u8],
        AtomModel::Char(c) => seq![QU] + escaped_bytes(vstd::utf8::encode_utf8(seq![c]))
            + seq![QU],
        AtomModel::Str(s) => seq![QU] + escaped_bytes(vstd::utf8::encode_utf8(s)) + seq![QU],
        AtomModel::Bytes(b) => seq![0x5bu8] + byte_list_upto(b, b.len() as int) + seq![0x5du8],
        AtomModel::U64(i) => dec_digits(i),
        AtomModel::I64(i) => if i >= 0 {
            dec_digits(i as u64)
        } else {
            seq![0x2du8] + dec_digits((-(i as int)) as u64)
        },
        AtomModel::F64Bits(_) => Seq::empty(),
    }
}

/// Whether a comma or key/value separator is owed between the previous
/// sibling and the next value at the innermost open container.
#[derive(Clone, Copy, Debug)]
pub enum Position {
    First,
    NotFirst,
}

/// What the innermost open container expects next: a map key, the value
/// of a pair whose key was written, or a plain sequence element.
#[derive(Clone, Copy, Debug)]
pub enum Object {
    MapKey,
    MapValue,
    Value,
}

/// The separator written before a non-first item of this kind.
pub open spec fn prefix_byte(o: Object) -> u8 {
    match o {
        Object::MapKey => 0x2c,
        Object::Value => 0x2c,
        Object::MapValue => 0x3a,
    }
}

/// What the container expects after an item of this kind.
pub open spec fn next_object(o: Object) -> Object {
    match o {
        Object::MapKey => Object::MapValue,
        Object::MapValue => Object::MapKey,
        Object::Value => Object::Value,
    }
}

impl Object {
    /// The separator written before a non-first item of this kind.
    pub fn prefix(self) -> (r: u8)
        ensures
            r == prefix_byte(self),
    {
        match self {
            Object::MapKey => 0x2c,
            Object::Value => 0x2c,
            Object::MapValue => 0x3a,
        }
    }

    /// What the container expects after an item of this kind.
    pub fn next(self) -> (r: Self)
        ensures
            r == next_object(self),
    {
        match self {
            Object::MapKey => Object::MapValue,
            Object::MapValue => Object::MapKey,
            Object::Value => Object::Value,
        }
    }
}

/// One frame of the encoder's container stack.
#[derive(Clone, Copy, Debug)]
pub struct State {
    pub pos: Position,
    pub object: Object,
}

/// The separator owed before the next value, given the stack.
pub open spec fn sep_bytes(st: Seq<State>) -> Seq<u8> {
    if st.len() > 0 && st.last().pos is NotFirst {
        seq![prefix_byte(st.last().object)]
    } else {
        Seq::empty()
    }
}

/// The innermost frame after one value was written under it: no longer
/// first, and expecting the next kind of item.
pub open spec fn bump(st: Seq<State>) -> Seq<State> {
    if st.len() > 0 {
        st.update(
            st.len() - 1,
            State { pos: Position::NotFirst, object: next_object(st.last().object) },
        )
    } else {
        st
    }
}

/// Whether the encoder accepts an event: everything except the
/// floating-point atom, which this format cannot render from bits alone.
pub open spec fn json_event_ok(e: EventModel) -> bool {
    !(e matches EventModel::Atom(AtomModel::F64Bits(_)))
}

/// The bytes one event adds to the output, given the encoder's stack.
pub open spec fn json_event_bytes(st: Seq<State>, e: EventModel) -> Seq<u8> {
    match e {
        EventModel::Atom(a) => sep_bytes(st) + json_atom_bytes(a),
        EventModel::SeqStart(_) => sep_bytes(st) + seq![0x5bu8],
        EventModel::SeqEnd => seq![0x5du8],
        EventModel::MapStart(_) => sep_bytes(st) + seq![0x7bu8],
        EventModel::MapEnd => seq![0x7du8],
    }
}

/// The encoder's stack after one event: a value or container start counts
/// as one item of the enclosing frame, starts push a fresh frame, ends
/// pop one.
pub open spec fn json_event_next(st: Seq<State>, e: EventModel) -> Seq<State> {
    match e {
        EventModel::Atom(_) => bump(st),
        EventModel::SeqStart(_) => bump(st).push(
            State { pos: Position::First, object: Object::Value },
        ),
        EventModel::MapStart(_) => bump(st).push(
            State { pos: Position::First, object: Object::MapKey },
        ),
        EventModel::SeqEnd | EventModel::MapEnd => if st.len() > 0 {
            st.drop_last()
        } else {
            st
        },
    }
}

/// The human-readable text encoder: consumes the event stream and appends
/// each event's rendering to a byte buffer, keeping one frame per open
/// container so that comma and key/value separators fall between siblings.
pub struct JsonEncoder {
    stack: Vec<State>,
}

impl View for JsonEncoder {
    type V = Seq<State>;

    closed spec fn view(&self) -> Seq<State> {
        self.stack@
    }
}

impl Default for JsonEncoder {
    fn default() -> (e: Self)
        ensures
            e@ == Seq::<State>::empty(),
    {
        JsonEncoder { stack: Vec::new() }
    }
}

/// Writes the rendering of one leaf value, the floating-point atom
/// excluded.
#[verifier::loop_isolation(false)]
#[verifier::rlimit(100)]
fn write_atom(out: &mut Vec<u8>, atom: Atom<'_>)
    requires
        !(atom@ is F64Bits),
    ensures
        final(out)@ == old(out)@ + json_atom_bytes(atom@),
{
    let ghost mid = out@;
    let ghost a0 = atom@;
        match atom {
            Atom::Null => {
                out.push(0x6eu8);
                out.push(0x75u8);
                out.push(0x6cu8);
                out.push(0x6cu8);
            },
            Atom::Bool(true) => {
                out.push(0x74u8);
                out.push(0x72u8);
                out.push(0x75u8);
                out.push(0x65u8);
            },
            Atom::Bool(false) => {
                out.push(0x66u8);
                out.push(0x61u8);
                out.push(0x6cu8);
                out.push(0x73u8);
                out.push(0x65u8);
            },
            Atom::Char(c) => {
                let encoded = char_utf8(c);
                out.push(QU);
                format_escaped_bytes(out, encoded.as_slice());
                out.push(QU);
            },
            Atom::Str(s) => {
                format_escaped_str(out, s.as_str());
            },
            Atom::Bytes(b) => {
                let bs = b.as_slice();
                out.push(0x5bu8);
                let m = bs.len();
                let mut k: usize = 0;
                while k < m
                    invariant
                        0 <= k <= m,
                        m == bs@.len(),
                        out@ == mid + seq![0x5bu8] + byte_list_upto(bs@, k as int),
                    decreases m - k,
                {
                    if k > 0 {
                        out.push(0x2cu8);
                    }
                    let d = format_u64(*vstd::slice::slice_index_get(bs, k) as u64);
                    out.extend_from_slice(d.as_slice());
                    k += 1;
                    proof {
                        if k == 1 {
                            assert(out@ =~= mid + seq![0x5bu8] + byte_list_upto(
                                bs@,
                                k as int,
                            ));
                        } else {
                            assert(out@ =~= mid + seq![0x5bu8] + byte_list_upto(
                                bs@,
                                k as int,
                            ));
                        }
                    }
                }
                out.push(0x5du8);
            },
            Atom::U64(i) => {
                let d = format_u64(i);
                out.extend_from_slice(d.as_slice());
            },
            Atom::I64(i) => {
                if i >= 0 {
                    let d = format_u64(i as u64);
                    out.extend_from_slice(d.as_slice());
                } else {
                    out.push(0x2du8);
                    let mag = (-(i as i128)) as u64;
                    let d = format_u64(mag);
                    out.extend_from_slice(d.as_slice());
                }
            },
            Atom::F64Bits(_) => {},
        }
    proof {
        assert(out@ =~= mid + json_atom_bytes(a0));
    }
}

impl JsonEncoder {
    /// Writes the separator owed before a value and marks the innermost
    /// frame as holding one more item.
    fn write_sep(&mut self, out: &mut Vec<u8>)
        ensures
            final(out)@ == old(out)@ + sep_bytes(old(self)@),
            final(self)@ == bump(old(self)@),
    {
        let n = self.stack.len();
        if n > 0 {
            let top = self.stack[n - 1];
            match top.pos {
                Position::NotFirst => out.push(top.object.prefix()),
                Position::First => {},
            }
            self.stack.set(
                n - 1,
                State { pos: Position::NotFirst, object: top.object.next() },
            );
            proof {
                assert(out@ =~= old(out)@ + sep_bytes(old(self)@));
                assert(self@ =~= bump(old(self)@));
            }
        } else {
            proof {
                assert(out@ =~= old(out)@ + sep_bytes(old(self)@));
            }
        }
    }

    /// Encodes one event at the end of `out`. Every event but the
    /// floating-point atom is accepted; an end marker with no open
    /// container closes nothing.
    #[verifier::loop_isolation(false)]
    #[verifier::rlimit(100)]
    pub fn write(&mut self, event: Event<'_>, out: &mut Vec<u8>) -> (r: Result<
        (),
        EncodeError,
    >)
        ensures
            r is Ok <==> json_event_ok(event@),
            r is Ok ==> final(out)@ == old(out)@ + json_event_bytes(old(self)@, event@),
            r is Ok ==> final(self)@ == json_event_next(old(self)@, event@),
            r is Err ==> final(out)@ == old(out)@ && final(self)@ == old(self)@,
    {
        let ghost st0 = self@;
        let ghost out0 = out@;
        match event {
            Event::Atom(atom) => {
                match &atom {
                    Atom::F64Bits(_) => {
                        return Err(EncodeError::UnsupportedAtom);
                    },
                    _ => {},
                }
                self.write_sep(out);
                write_atom(out, atom);
                proof {
                    assert(out@ =~= out0 + json_event_bytes(st0, event@));
                    assert(self@ == bump(st0));
                    assert(json_event_next(st0, event@) == bump(st0));
                }
                Ok(())
            },
            Event::SeqStart(_) => {
                self.write_sep(out);
                out.push(0x5bu8);
                self.stack.push(State { pos: Position::First, object: Object::Value });
                proof {
                    assert(out@ =~= out0 + json_event_bytes(st0, event@));
                    assert(self@ =~= json_event_next(st0, event@));
                }
                Ok(())
            },
            Event::SeqEnd => {
                out.push(0x5du8);
                if self.stack.len() > 0 {
                    let _popped = self.stack.pop();
                }
                proof {
                    assert(out@ =~= out0 + json_event_bytes(st0, event@));
                    if st0.len() > 0 {
                        assert(self@ =~= st0.drop_last());
                    }
                }
                Ok(())
            },
            Event::MapStart(_) => {
                self.write_sep(out);
                out.push(0x7bu8);
                self.stack.push(State { pos: Position::First, object: Object::MapKey });
                proof {
                    assert(out@ =~= out0 + json_event_bytes(st0, event@));
                    assert(self@ =~= json_event_next(st0, event@));
                }
                Ok(())
            },
            Event::MapEnd => {
                out.push(0x7du8);
                if self.stack.len() > 0 {
                    let _popped = self.stack.pop();
                }
                proof {
                    assert(out@ =~= out0 + json_event_bytes(st0, event@));
                    if st0.len() > 0 {
                        assert(self@ =~= st0.drop_last());
                    }
                }
                Ok(())
            },
        }
    }

    /// Writes one already-rendered value under the current separator
    /// state: the hook through which a caller supplies a rendering this
    /// format does not produce itself, such as the decimal text of a
    /// floating-point number.
    pub fn write_raw_value(&mut self, value: &[u8], out: &mut Vec<u8>)
        ensures
            final(out)@ == old(out)@ + sep_bytes(old(self)@) + value@,
            final(self)@ == bump(old(self)@),
    {
        self.write_sep(out);
        out.extend_from_slice(value);
        proof {
            assert(out@ =~= old(out)@ + sep_bytes(old(self)@) + value@);
        }
    }

    /// How many containers are open: zero once a whole well-nested stream
    /// has been encoded.
    pub fn depth(&self) -> (n: usize)
        ensures
            n == self@.len(),
    {
        self.stack.len()
    }
}

/// The human-readable text encoder bound to an owned output buffer.
pub struct JsonSerializer {
    pub enc: JsonEncoder,
    pub out: Vec<u8>,
}

impl JsonSerializer {
    pub fn new(output: Vec<u8>) -> (s: Self)
        ensures
            s.enc@ == Seq::<State>::empty(),
            s.out@ == output@,
    {
        Self { enc: JsonEncoder::default(), out: output }
    }

    /// Encodes one event at the end of the owned buffer.
    pub fn write(&mut self, event: Event<'_>) -> (r: Result<(), EncodeError>)
        ensures
            r is Ok <==> json_event_ok(event@),
            r is Ok ==> final(self).out@ == old(self).out@ + json_event_bytes(
                old(self).enc@,
                event@,
            ),
            r is Ok ==> final(self).enc@ == json_event_next(old(self).enc@, event@),
            r is Err ==> final(self).out@ == old(self).out@ && final(self).enc@ == old(
                self,
            ).enc@,
    {
        self.enc.write(event, &mut self.out)
    }

    /// How many containers are open.
    pub fn depth(&self) -> (n: usize)
        ensures
            n == self.enc@.len(),
    {
        self.enc.depth()
    }
}

} // verus!
