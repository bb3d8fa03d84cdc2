use vstd::prelude::*;

verus! {

/// Mathematical model of a leaf value: the payload of an `Atom` with all
/// ownership distinctions erased, so that a borrowed atom and its detached
/// owned copy have the same model.
pub enum AtomModel {
    Null,
    Bool(bool),
    Str(Seq<char>),
    Bytes(Seq<u8>),
    Char(char),
    U64(u64),
    I64(i64),
    F64Bits(u64),
}

/// Mathematical model of one unit of the structural event stream.
pub enum EventModel {
    Atom(AtomModel),
    MapStart(Option<usize>),
    MapEnd,
    SeqStart(Option<usize>),
    SeqEnd,
}

/// Text payload of an atom: either a view borrowed from the source value
/// (zero-copy) or an owned, lifetime-independent copy.
#[derive(Debug, Clone)]
pub enum Text<'a> {
    Borrowed(&'a str),
    Owned(String),
}

/// Byte-string payload of an atom: borrowed view or owned copy.
#[derive(Debug, Clone)]
pub enum Blob<'a> {
    Borrowed(&'a [u8]),
    Owned(Vec<u8>),
}

impl<'a> View for Text<'a> {
    type V = Seq<char>;

    open spec fn view(&self) -> Seq<char> {
        match self {
            Text::Borrowed(s) => s@,
            Text::Owned(s) => s@,
        }
    }
}

impl<'a> View for Blob<'a> {
    type V = Seq<u8>;

    open spec fn view(&self) -> Seq<u8> {
        match self {
            Blob::Borrowed(b) => b@,
            Blob::Owned(b) => b@,
        }
    }
}

impl<'a> Text<'a> {
    /// The string slice this text denotes, whichever way it is held.
    pub fn as_str(&self) -> (r: &str)
        ensures
            r@ == self@,
    {
        match self {
            Text::Borrowed(s) => s,
            Text::Owned(s) => s.as_str(),
        }
    }
}

impl<'a> Blob<'a> {
    /// The byte slice this blob denotes, whichever way it is held.
    pub fn as_slice(&self) -> (r: &[u8])
        ensures
            r@ == self@,
    {
        match self {
            Blob::Borrowed(b) => b,
            Blob::Owned(b) => b.as_slice(),
        }
    }
}

/// Relies on char::encode_utf8: the UTF-8 byte sequence of one character,
/// as `encode_utf8` of the one-character sequence gives it.
#[verifier::external_body]
pub(crate) fn char_utf8(c: char) -> (r: Vec<u8>)
    ensures
        r@ == vstd::utf8::encode_utf8(seq![c]),
{
    let mut buf = [0u8; 4];
    c.encode_utf8(&mut buf).as_bytes().to_vec()
}

/// Compares two string slices by content.
fn str_eq(a: &str, b: &str) -> (r: bool)
    ensures
        r == (a@ == b@),
{
    let ab = a.as_bytes();
    let bb = b.as_bytes();
    let r = byte_slice_eq(ab, bb);
    proof {
        if ab@ == bb@ {
            broadcast use vstd::utf8::encode_utf8_decode_utf8;

            assert(vstd::utf8::decode_utf8(vstd::utf8::encode_utf8(a@)) == a@);
            assert(vstd::utf8::decode_utf8(vstd::utf8::encode_utf8(b@)) == b@);
        }
    }
    r
}

/// Compares two byte slices by content.
fn byte_slice_eq(a: &[u8], b: &[u8]) -> (r: bool)
    ensures
        r == (a@ == b@),
{
    if a.len() != b.len() {
        proof {
            assert(a@.len() != b@.len());
        }
        return false;
    }
    let n = a.len();
    let mut i: usize = 0;
    while i < n
        invariant
            0 <= i <= n,
            n == a@.len() == b@.len(),
            forall|j: int| 0 <= j < i ==> a@[j] == b@[j],
        decreases n - i,
    {
        if a[i] != b[i] {
            return false;
        }
        i += 1;
    }
    proof {
        assert(a@ =~= b@);
    }
    true
}

/// A leaf value of the event stream. String and byte-string atoms carry
/// either a borrowed view into the source value or an owned copy; the
/// choice is per instance, so a traversal can stay zero-copy while a
/// consumer may still detach any atom it wants to keep.
#[derive(Debug, Clone)]
pub enum Atom<'a> {
    Null,
    Bool(bool),
    Str(Text<'a>),
    Bytes(Blob<'a>),
    Char(char),
    U64(u64),
    I64(i64),
    /// A 64-bit binary floating-point value, carried opaquely as its raw
    /// IEEE 754 bit pattern; the engine never interprets it.
    F64Bits(u64),
}

impl<'a> View for Atom<'a> {
    type V = AtomModel;

    open spec fn view(&self) -> AtomModel {
        match self {
            Atom::Null => AtomModel::Null,
            Atom::Bool(v) => AtomModel::Bool(*v),
            Atom::Str(v) => AtomModel::Str(v@),
            Atom::Bytes(v) => AtomModel::Bytes(v@),
            Atom::Char(v) => AtomModel::Char(*v),
            Atom::U64(v) => AtomModel::U64(*v),
            Atom::I64(v) => AtomModel::I64(*v),
            Atom::F64Bits(v) => AtomModel::F64Bits(*v),
        }
    }
}

impl<'a> Atom<'a> {
    /// Makes a static clone of the atom decoupling the lifetimes.
    /// The detached atom denotes the same model as its source.
    pub fn to_static(&self) -> (r: Atom<'static>)
        ensures
            r@ == self@,
    {
        match self {
            Atom::Null => Atom::Null,
            Atom::Bool(v) => Atom::Bool(*v),
            Atom::Str(v) => Atom::Str(Text::Owned(v.as_str().to_owned())),
            Atom::Bytes(v) => Atom::Bytes(Blob::Owned(vstd::slice::slice_to_vec(v.as_slice()))),
            Atom::Char(v) => Atom::Char(*v),
            Atom::U64(v) => Atom::U64(*v),
            Atom::I64(v) => Atom::I64(*v),
            Atom::F64Bits(v) => Atom::F64Bits(*v),
        }
    }

    /// Makes a static clone of the atom decoupling the lifetimes,
    /// consuming the atom and moving any owned payload instead of copying it.
    pub fn into_static(self) -> (r: Atom<'static>)
        ensures
            r@ == self@,
    {
        match self {
            Atom::Null => Atom::Null,
            Atom::Bool(v) => Atom::Bool(v),
            Atom::Str(Text::Borrowed(v)) => Atom::Str(Text::Owned(v.to_owned())),
            Atom::Str(Text::Owned(v)) => Atom::Str(Text::Owned(v)),
            Atom::Bytes(Blob::Borrowed(v)) => Atom::Bytes(
                Blob::Owned(vstd::slice::slice_to_vec(v)),
            ),
            Atom::Bytes(Blob::Owned(v)) => Atom::Bytes(Blob::Owned(v)),
            Atom::Char(v) => Atom::Char(v),
            Atom::U64(v) => Atom::U64(v),
            Atom::I64(v) => Atom::I64(v),
            Atom::F64Bits(v) => Atom::F64Bits(v),
        }
    }
}

impl<'a> PartialEq for Atom<'a> {
    /// Atoms compare by content: a borrowed atom equals its owned copy.
    fn eq(&self, o: &Atom<'a>) -> (r: bool) {
        match (self, o) {
            (Atom::Null, Atom::Null) => true,
            (Atom::Bool(a), Atom::Bool(b)) => a == b,
            (Atom::Str(a), Atom::Str(b)) => str_eq(a.as_str(), b.as_str()),
            (Atom::Bytes(a), Atom::Bytes(b)) => byte_slice_eq(a.as_slice(), b.as_slice()),
            (Atom::Char(a), Atom::Char(b)) => a == b,
            (Atom::U64(a), Atom::U64(b)) => a == b,
            (Atom::I64(a), Atom::I64(b)) => a == b,
            (Atom::F64Bits(a), Atom::F64Bits(b)) => a == b,
            _ => false,
        }
    }
}

impl<'a> vstd::std_specs::cmp::PartialEqSpecImpl for Atom<'a> {
    open spec fn obeys_eq_spec() -> bool {
        true
    }

    open spec fn eq_spec(&self, o: &Atom<'a>) -> bool {
        self@ == o@
    }
}

/// One unit of the structural stream: a leaf atom or a container
/// boundary marker, the latter carrying an optional length hint.
#[derive(Debug, Clone)]
pub enum Event<'a> {
    Atom(Atom<'a>),
    MapStart(Option<usize>),
    MapEnd,
    SeqStart(Option<usize>),
    SeqEnd,
}

impl<'a> View for Event<'a> {
    type V = EventModel;

    open spec fn view(&self) -> EventModel {
        match self {
            Event::Atom(a) => EventModel::Atom(a@),
            Event::MapStart(x) => EventModel::MapStart(*x),
            Event::MapEnd => EventModel::MapEnd,
            Event::SeqStart(x) => EventModel::SeqStart(*x),
            Event::SeqEnd => EventModel::SeqEnd,
        }
    }
}

impl<'a> Event<'a> {
    /// Makes a static clone of the event decoupling the lifetimes.
    /// The detached event denotes the same model as its source.
    pub fn to_static(&self) -> (r: Event<'static>)
        ensures
            r@ == self@,
    {
        match self {
            Event::Atom(atom) => Event::Atom(atom.to_static()),
            Event::MapStart(x) => Event::MapStart(*x),
            Event::MapEnd => Event::MapEnd,
            Event::SeqStart(x) => Event::SeqStart(*x),
            Event::SeqEnd => Event::SeqEnd,
        }
    }

    /// Makes a static clone of the event decoupling the lifetimes,
    /// consuming the event and moving owned payloads instead of copying.
    pub fn into_static(self) -> (r: Event<'static>)
        ensures
            r@ == self@,
    {
        match self {
            Event::Atom(atom) => Event::Atom(atom.into_static()),
            Event::MapStart(x) => Event::MapStart(x),
            Event::MapEnd => Event::MapEnd,
            Event::SeqStart(x) => Event::SeqStart(x),
            Event::SeqEnd => Event::SeqEnd,
        }
    }
}

impl<'a> PartialEq for Event<'a> {
    /// Events compare by content, as atoms do.
    fn eq(&self, o: &Event<'a>) -> (r: bool) {
        match (self, o) {
            (Event::Atom(a), Event::Atom(b)) => a == b,
            (Event::MapStart(a), Event::MapStart(b)) => match (a, b) {
                (Some(x), Some(y)) => x == y,
                (None, None) => true,
                _ => false,
            },
            (Event::MapEnd, Event::MapEnd) => true,
            (Event::SeqStart(a), Event::SeqStart(b)) => match (a, b) {
                (Some(x), Some(y)) => x == y,
                (None, None) => true,
                _ => false,
            },
            (Event::SeqEnd, Event::SeqEnd) => true,
            _ => false,
        }
    }
}

impl<'a> vstd::std_specs::cmp::PartialEqSpecImpl for Event<'a> {
    open spec fn obeys_eq_spec() -> bool {
        true
    }

    open spec fn eq_spec(&self, o: &Event<'a>) -> bool {
        self@ == o@
    }
}


impl From<u64> for Event<'static> {
    fn from(value: u64) -> (r: Event<'static>) {
        Event::Atom(Atom::U64(value))
    }
}

impl vstd::std_specs::convert::FromSpecImpl<u64> for Event<'static> {
    open spec fn obeys_from_spec() -> bool {
        true
    }

    open spec fn from_spec(value: u64) -> Self {
        Event::Atom(Atom::U64(value))
    }
}

impl From<i64> for Event<'static> {
    fn from(value: i64) -> (r: Event<'static>) {
        Event::Atom(Atom::I64(value))
    }
}

impl vstd::std_specs::convert::FromSpecImpl<i64> for Event<'static> {
    open spec fn obeys_from_spec() -> bool {
        true
    }

    open spec fn from_spec(value: i64) -> Self {
        Event::Atom(Atom::I64(value))
    }
}

impl From<usize> for Event<'static> {
    fn from(value: usize) -> (r: Event<'static>) {
        Event::Atom(Atom::U64(value as u64))
    }
}

impl vstd::std_specs::convert::FromSpecImpl<usize> for Event<'static> {
    open spec fn obeys_from_spec() -> bool {
        true
    }

    open spec fn from_spec(value: usize) -> Self {
        Event::Atom(Atom::U64(value as u64))
    }
}

impl From<isize> for Event<'static> {
    fn from(value: isize) -> (r: Event<'static>) {
        Event::Atom(Atom::I64(value as i64))
    }
}

impl vstd::std_specs::convert::FromSpecImpl<isize> for Event<'static> {
    open spec fn obeys_from_spec() -> bool {
        true
    }

    open spec fn from_spec(value: isize) -> Self {
        Event::Atom(Atom::I64(value as i64))
    }
}

impl From<bool> for Event<'static> {
    fn from(value: bool) -> (r: Event<'static>) {
        Event::Atom(Atom::Bool(value))
    }
}

impl vstd::std_specs::convert::FromSpecImpl<bool> for Event<'static> {
    open spec fn obeys_from_spec() -> bool {
        true
    }

    open spec fn from_spec(value: bool) -> Self {
        Event::Atom(Atom::Bool(value))
    }
}

impl From<char> for Event<'static> {
    fn from(value: char) -> (r: Event<'static>) {
        Event::Atom(Atom::Char(value))
    }
}

impl vstd::std_specs::convert::FromSpecImpl<char> for Event<'static> {
    open spec fn obeys_from_spec() -> bool {
        true
    }

    open spec fn from_spec(value: char) -> Self {
        Event::Atom(Atom::Char(value))
    }
}

impl From<()> for Event<'static> {
    fn from(value: ()) -> (r: Event<'static>) {
        Event::Atom(Atom::Null)
    }
}

impl vstd::std_specs::convert::FromSpecImpl<()> for Event<'static> {
    open spec fn obeys_from_spec() -> bool {
        true
    }

    open spec fn from_spec(value: ()) -> Self {
        Event::Atom(Atom::Null)
    }
}

impl<'a> From<&'a str> for Event<'a> {
    fn from(value: &'a str) -> (r: Event<'a>) {
        Event::Atom(Atom::Str(Text::Borrowed(value)))
    }
}

impl<'a> vstd::std_specs::convert::FromSpecImpl<&'a str> for Event<'a> {
    open spec fn obeys_from_spec() -> bool {
        true
    }

    open spec fn from_spec(value: &'a str) -> Self {
        Event::Atom(Atom::Str(Text::Borrowed(value)))
    }
}

impl From<String> for Event<'static> {
    fn from(value: String) -> (r: Event<'static>) {
        Event::Atom(Atom::Str(Text::Owned(value)))
    }
}

impl vstd::std_specs::convert::FromSpecImpl<String> for Event<'static> {
    open spec fn obeys_from_spec() -> bool {
        true
    }

    open spec fn from_spec(value: String) -> Self {
        Event::Atom(Atom::Str(Text::Owned(value)))
    }
}

impl<'a> From<&'a [u8]> for Event<'a> {
    fn from(value: &'a [u8]) -> (r: Event<'a>) {
        Event::Atom(Atom::Bytes(Blob::Borrowed(value)))
    }
}

impl<'a> vstd::std_specs::convert::FromSpecImpl<&'a [u8]> for Event<'a> {
    open spec fn obeys_from_spec() -> bool {
        true
    }

    open spec fn from_spec(value: &'a [u8]) -> Self {
        Event::Atom(Atom::Bytes(Blob::Borrowed(value)))
    }
}

impl<'a> From<Atom<'a>> for Event<'a> {
    fn from(atom: Atom<'a>) -> (r: Event<'a>) {
        Event::Atom(atom)
    }
}

impl<'a> vstd::std_specs::convert::FromSpecImpl<Atom<'a>> for Event<'a> {
    open spec fn obeys_from_spec() -> bool {
        true
    }

    open spec fn from_spec(atom: Atom<'a>) -> Self {
        Event::Atom(atom)
    }
}

} // verus!
