use vstd::prelude::*;

use crate::event::{Atom, AtomModel, Event, EventModel};
use crate::event::char_utf8;
use crate::EncodeError;

verus! {

/// The two big-endian bytes of a value below 2^16.
pub open spec fn be2(n: u64) -> Seq<u8> {
    seq![(n >> 8) as u8, n as u8]
}

/// The four big-endian bytes of a value below 2^32.
pub open spec fn be4(n: u64) -> Seq<u8> {
    seq![(n >> 24) as u8, (n >> 16) as u8, (n >> 8) as u8, n as u8]
}

/// The eight big-endian bytes of a value.
pub open spec fn be8(n: u64) -> Seq<u8> {
    seq![
        (n >> 56) as u8,
        (n >> 48) as u8,
        (n >> 40) as u8,
        (n >> 32) as u8,
        (n >> 24) as u8,
        (n >> 16) as u8,
        (n >> 8) as u8,
        n as u8,
    ]
}

/// The compact binary form of an unsigned value under a major-type base
/// byte: values up to 23 inline in the initial byte, larger ones through
/// the smallest adequate big-endian extension of 1, 2, 4, or 8 bytes.
pub open spec fn num_bytes(base: u8, n: u64) -> Seq<u8> {
    if n <= 0x17 {
        seq![(base + n) as u8]
    } else if n <= 0xff {
        seq![(base + 0x18) as u8, n as u8]
    } else if n <= 0xffff {
        seq![(base + 0x19) as u8] + be2(n)
    } else if n <= 0xffff_ffff {
        seq![(base + 0x1a) as u8] + be4(n)
    } else {
        seq![(base + 0x1b) as u8] + be8(n)
    }
}

/// Writes the compact binary form of `n` under major-type `base`.
pub fn write_num(base: u8, out: &mut Vec<u8>, n: u64)
    requires
        base as int + 0x1b <= 255,
    ensures
        final(out)@ == old(out)@ + num_bytes(base, n),
{
    let ghost before = out@;
    if n <= 0x17 {
        out.push(base + n as u8);
    } else if n <= 0xff {
        out.push(base + 0x18);
        out.push(#[verifier::truncate] (n as u8));
    } else if n <= 0xffff {
        out.push(base + 0x19);
        out.push(#[verifier::truncate] ((n >> 8) as u8));
        out.push(#[verifier::truncate] (n as u8));
    } else if n <= 0xffff_ffff {
        out.push(base + 0x1a);
        out.push(#[verifier::truncate] ((n >> 24) as u8));
        out.push(#[verifier::truncate] ((n >> 16) as u8));
        out.push(#[verifier::truncate] ((n >> 8) as u8));
        out.push(#[verifier::truncate] (n as u8));
    } else {
        out.push(base + 0x1b);
        out.push(#[verifier::truncate] ((n >> 56) as u8));
        out.push(#[verifier::truncate] ((n >> 48) as u8));
        out.push(#[verifier::truncate] ((n >> 40) as u8));
        out.push(#[verifier::truncate] ((n >> 32) as u8));
        out.push(#[verifier::truncate] ((n >> 24) as u8));
        out.push(#[verifier::truncate] ((n >> 16) as u8));
        out.push(#[verifier::truncate] ((n >> 8) as u8));
        out.push(#[verifier::truncate] (n as u8));
    }
    proof {
        assert(out@ =~= before + num_bytes(base, n));
    }
}

/// Writes a length under a major-type base.
pub fn write_length(base: u8, out: &mut Vec<u8>, value: usize)
    requires
        base as int + 0x1b <= 255,
    ensures
        final(out)@ == old(out)@ + num_bytes(base, value as u64),
{
    write_num(base, out, value as u64);
}

/// Writes a length-prefixed byte run under a major-type base.
pub fn write_encoded_bytes(base: u8, out: &mut Vec<u8>, value: &[u8])
    requires
        base as int + 0x1b <= 255,
    ensures
        final(out)@ == old(out)@ + num_bytes(base, value@.len() as u64) + value@,
{
    let ghost before = out@;
    write_length(base, out, value.len());
    out.extend_from_slice(value);
    proof {
        assert(out@ =~= before + num_bytes(base, value@.len() as u64) + value@);
    }
}

/// One frame of the encoder's container stack: the declared child count,
/// if the start marker carried one (doubled for maps), and how many
/// children were actually seen so far.
#[derive(Clone, Copy, Debug)]
pub struct State {
    pub expected_len: Option<usize>,
    pub actual_len: usize,
}

/// The compact binary rendering of one leaf value.
pub open spec fn cbor_atom_bytes(a: AtomModel) -> Seq<u8> {
    match a {
        AtomModel::U64(i) => num_bytes(0x00, i),
        AtomModel::I64(i) => if i >= 0 {
            num_bytes(0x00, i as u64)
        } else {
            num_bytes(0x20, !i as u64)
        },
        AtomModel::Bytes(b) => num_bytes(0x40, b.len() as u64) + b,
        AtomModel::Char(c) => num_bytes(
            0x60,
            vstd::utf8::encode_utf8(seq![c]).len() as u64,
        ) + vstd::utf8::encode_utf8(seq![c]),
        AtomModel::Str(s) => num_bytes(0x60, vstd::utf8::encode_utf8(s).len() as u64)
            + vstd::utf8::encode_utf8(s),
        AtomModel::Bool(false) => seq![0xf4u8],
        AtomModel::Bool(true) => seq![0xf5u8],
        AtomModel::Null => seq![0xf6u8],
        AtomModel::F64Bits(bits) => seq![0xfbu8] + be8(bits),
    }
}

/// The bytes one event adds to the output, given the encoder's stack: a
/// container with a declared length has no terminator, an indeterminate
/// one opened with the open-ended marker is closed by the break byte.
pub open spec fn cbor_event_bytes(st: Seq<State>, e: EventModel) -> Seq<u8> {
    match e {
        EventModel::Atom(a) => cbor_atom_bytes(a),
        EventModel::SeqStart(Some(n)) => num_bytes(0x80, n as u64),
        EventModel::SeqStart(None) => seq![0x9fu8],
        EventModel::MapStart(Some(n)) => num_bytes(0xa0, n as u64),
        EventModel::MapStart(None) => seq![0xbfu8],
        EventModel::SeqEnd | EventModel::MapEnd => if st.len() > 0 && st.last().expected_len
            is Some {
            Seq::empty()
        } else {
            seq![0xffu8]
        },
    }
}

/// The encoder's stack after one event: starts push a frame, ends pop
/// one, and an atom counts toward the enclosing frame's actual length.
pub open spec fn cbor_event_next(st: Seq<State>, e: EventModel) -> Seq<State> {
    match e {
        EventModel::Atom(_) => if st.len() > 0 {
            st.update(
                st.len() - 1,
                State {
                    expected_len: st.last().expected_len,
                    actual_len: (st.last().actual_len + 1) as usize,
                },
            )
        } else {
            st
        },
        EventModel::SeqStart(h) => st.push(State { expected_len: h, actual_len: 0 }),
        EventModel::MapStart(Some(n)) => st.push(
            State { expected_len: Some((2 * n) as usize), actual_len: 0 },
        ),
        EventModel::MapStart(None) => st.push(State { expected_len: None, actual_len: 0 }),
        EventModel::SeqEnd | EventModel::MapEnd => st.drop_last(),
    }
}

/// The compact binary encoder: consumes the event stream and appends each
/// event's encoding to a byte buffer, keeping a stack of one frame per
/// open container to know whether an end marker needs a break byte.
pub struct CborEncoder {
    stack: Vec<State>,
}

impl View for CborEncoder {
    type V = Seq<State>;

    closed spec fn view(&self) -> Seq<State> {
        self.stack@
    }
}

impl Default for CborEncoder {
    fn default() -> (e: Self)
        ensures
            e@ == Seq::<State>::empty(),
    {
        CborEncoder { stack: Vec::new() }
    }
}

impl CborEncoder {
    /// Encodes one event at the end of `out`. Every event of a well-nested
    /// stream is accepted; an end marker needs an open container to close.
    pub fn write(&mut self, event: Event<'_>, out: &mut Vec<u8>) -> (r: Result<
        (),
        EncodeError,
    >)
        requires
            (event@ is SeqEnd || event@ is MapEnd) ==> old(self)@.len() > 0,
            (event@ is Atom && old(self)@.len() > 0) ==> old(self)@.last().actual_len
                < usize::MAX,
            (event@ matches EventModel::MapStart(Some(n)) ==> 2 * n <= usize::MAX),
        ensures
            r is Ok,
            final(out)@ == old(out)@ + cbor_event_bytes(old(self)@, event@),
            final(self)@ == cbor_event_next(old(self)@, event@),
    {
        let ghost st0 = self@;
        let ghost out0 = out@;
        match event {
            Event::Atom(atom) => {
                let n = self.stack.len();
                if n > 0 {
                    let top = self.stack[n - 1];
                    self.stack.set(
                        n - 1,
                        State {
                            expected_len: top.expected_len,
                            actual_len: top.actual_len + 1,
                        },
                    );
                }
                match atom {
                    Atom::U64(i) => write_num(0x00, out, i),
                    Atom::I64(i) => {
                        if i >= 0 {
                            write_num(0x00, out, i as u64);
                        } else {
                            write_num(0x20, out, !i as u64);
                        }
                    },
                    Atom::Bytes(b) => write_encoded_bytes(0x40, out, b.as_slice()),
                    Atom::Char(c) => {
                        let encoded = char_utf8(c);
                        write_encoded_bytes(0x60, out, encoded.as_slice());
                    },
                    Atom::Str(s) => write_encoded_bytes(0x60, out, s.as_str().as_bytes()),
                    Atom::Bool(false) => out.push(0xf4),
                    Atom::Bool(true) => out.push(0xf5),
                    Atom::Null => out.push(0xf6),
                    Atom::F64Bits(bits) => {
                        out.push(0xfb);
                        out.push(#[verifier::truncate] ((bits >> 56) as u8));
                        out.push(#[verifier::truncate] ((bits >> 48) as u8));
                        out.push(#[verifier::truncate] ((bits >> 40) as u8));
                        out.push(#[verifier::truncate] ((bits >> 32) as u8));
                        out.push(#[verifier::truncate] ((bits >> 24) as u8));
                        out.push(#[verifier::truncate] ((bits >> 16) as u8));
                        out.push(#[verifier::truncate] ((bits >> 8) as u8));
                        out.push(#[verifier::truncate] (bits as u8));
                    },
                }
                proof {
                    assert(out@ =~= out0 + cbor_event_bytes(st0, event@));
                    assert(self@ =~= cbor_event_next(st0, event@));
                }
                Ok(())
            },
            Event::SeqStart(Some(len)) => {
                self.stack.push(State { expected_len: Some(len), actual_len: 0 });
                write_length(0x80, out, len);
                Ok(())
            },
            Event::SeqStart(None) => {
                self.stack.push(State { expected_len: None, actual_len: 0 });
                out.push(0x9f);
                proof {
                    assert(out@ =~= out0 + cbor_event_bytes(st0, event@));
                }
                Ok(())
            },
            Event::SeqEnd => {
                let state = match self.stack.pop() {
                    Some(s) => s,
                    None => State { expected_len: None, actual_len: 0 },
                };
                if state.expected_len.is_none() {
                    out.push(0xff);
                }
                proof {
                    assert(self@ =~= st0.drop_last());
                    assert(out@ =~= out0 + cbor_event_bytes(st0, event@));
                }
                Ok(())
            },
            Event::MapStart(Some(len)) => {
                self.stack.push(State { expected_len: Some(len * 2), actual_len: 0 });
                write_length(0xa0, out, len);
                proof {
                    assert(self@ =~= cbor_event_next(st0, event@));
                }
                Ok(())
            },
            Event::MapStart(None) => {
                self.stack.push(State { expected_len: None, actual_len: 0 });
                out.push(0xbf);
                proof {
                    assert(out@ =~= out0 + cbor_event_bytes(st0, event@));
                }
                Ok(())
            },
            Event::MapEnd => {
                let state = match self.stack.pop() {
                    Some(s) => s,
                    None => State { expected_len: None, actual_len: 0 },
                };
                if state.expected_len.is_none() {
                    out.push(0xff);
                }
                proof {
                    assert(self@ =~= st0.drop_last());
                    assert(out@ =~= out0 + cbor_event_bytes(st0, event@));
                }
                Ok(())
            },
        }
    }

    /// How many containers are open: zero once a whole well-nested stream
    /// has been encoded.
    pub fn depth(&self) -> (n: usize)
        ensures
            n == self@.len(),
    {
        self.stack.len()
    }
}

/// The compact binary encoder bound to an owned output buffer.
pub struct CborSerializer {
    pub enc: CborEncoder,
    pub out: Vec<u8>,
}

impl CborSerializer {
    pub fn new(output: Vec<u8>) -> (s: Self)
        ensures
            s.enc_view() == Seq::<State>::empty(),
            s.out@ == output@,
    {
        Self { enc: CborEncoder::default(), out: output }
    }

    /// The encoder's container stack, for contracts.
    pub open spec fn enc_view(&self) -> Seq<State> {
        self.enc@
    }

    /// Encodes one event at the end of the owned buffer.
    pub fn write(&mut self, event: Event<'_>) -> (r: Result<(), EncodeError>)
        requires
            (event@ is SeqEnd || event@ is MapEnd) ==> old(self).enc_view().len() > 0,
            (event@ is Atom && old(self).enc_view().len() > 0) ==> old(
                self,
            ).enc_view().last().actual_len < usize::MAX,
            (event@ matches EventModel::MapStart(Some(n)) ==> 2 * n <= usize::MAX),
        ensures
            r is Ok,
            final(self).out@ == old(self).out@ + cbor_event_bytes(
                old(self).enc_view(),
                event@,
            ),
            final(self).enc_view() == cbor_event_next(old(self).enc_view(), event@),
    {
        self.enc.write(event, &mut self.out)
    }

    /// How many containers are open.
    pub fn depth(&self) -> (n: usize)
        ensures
            n == self.enc_view().len(),
    {
        self.enc.depth()
    }
}

} // verus!
