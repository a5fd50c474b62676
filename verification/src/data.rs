//! Building a payload and reading one back.
//!
//! A [`DataBuilder`] starts with four zero bytes reserved for the transaction code, which
//! [`DataBuilder::finish`] patches in place, so the code never costs a second buffer.
//! A [`DataReader`] owns the whole received message and a cursor into it, starting just
//! past the code. Descriptors ride beside the bytes and are taken in the order they
//! were written; `F` is the type a descriptor has on this side of the transport.
use crate::encoding::{
    byte_bound, decode_value, encodable, encode_value, kind_of, le_bytes, le_value, lemma_byte_bound_mono,
    lemma_byte_bounds, lemma_decode_encode_value, lemma_le_bytes_len, lemma_le_value_bound, WireKind, WireValue,
};
use crate::ToRef;
use strong_ipc::Ref;
use vstd::prelude::*;
use vstd::std_specs::convert::{FromSpec, FromSpecImpl};
use vstd::slice::{slice_subrange, slice_to_vec};
use vstd::utf8::*;

verus! {

/// A descriptor waiting to go out on a message.
pub enum Attachment<F> {
    Fd(F),
    Ref(Ref),
}

/// Why a value could not be written.
#[derive(Debug)]
pub enum WriteError {
    /// The string's UTF-8 bytes do not fit a `u32` length prefix.
    StringToLong,
    /// The list's item count does not fit a `u32` length prefix.
    ListToLong,
    /// A borrowed descriptor could not be duplicated.
    DupFd(std::io::Error),
}

/// Why a value could not be read.
#[derive(Debug)]
pub enum ReadError {
    /// Fewer bytes are left than the value takes up.
    NotEnoughBytes,
    /// The message carried fewer descriptors than the schema expects.
    MissingDescriptor,
    /// A string's bytes are not valid UTF-8.
    StringNotUtf8(std::string::FromUtf8Error),
    /// An enum's discriminant names no variant.
    UnknownEnumVariant(u16),
}

impl From<std::string::FromUtf8Error> for ReadError {
    fn from(e: std::string::FromUtf8Error) -> (r: ReadError)
        ensures
            r == ReadError::StringNotUtf8(e),
    {
        ReadError::StringNotUtf8(e)
    }
}

impl FromSpecImpl<std::string::FromUtf8Error> for ReadError {
    open spec fn obeys_from_spec() -> bool {
        true
    }

    open spec fn from_spec(e: std::string::FromUtf8Error) -> ReadError {
        ReadError::StringNotUtf8(e)
    }
}

/// Bytes that are not UTF-8 surface as `StringNotUtf8`, carrying std's error.
pub proof fn law_utf8_error_is_kept(e: std::string::FromUtf8Error)
    ensures
        FromSpec::<std::string::FromUtf8Error>::from_spec(e) matches ReadError::StringNotUtf8(x)
            && x == e,
{
}

/// A sealed payload: the code and payload bytes, and the descriptors in write order.
pub struct Frame<F> {
    pub data: Vec<u8>,
    pub attachments: Vec<Attachment<F>>,
}

impl<F> Frame<F> {
    /// The bytes of this frame, code first.
    pub fn data(&self) -> (d: &[u8])
        ensures
            d@ == self.data@,
    {
        self.data.as_slice()
    }
}

/// Width of the transaction code at the front of every message.
pub const CODE_LEN: usize = 4;

/// Appends the low `n` bytes of `v`, least significant first.
fn push_le(data: &mut Vec<u8>, v: u64, n: usize)
    ensures
        final(data)@ == old(data)@ + le_bytes(v as nat, n as nat),
{
    let mut rem = v;
    let mut i: usize = 0;
    while i < n
        invariant
            i <= n,
            data@ + le_bytes(rem as nat, (n - i) as nat) == old(data)@ + le_bytes(v as nat, n as nat),
        decreases n - i,
    {
        let ghost before = data@;
        let ghost k = (n - i) as nat;
        let ghost old_rem = rem as nat;
        let b = (rem % 256) as u8;
        data.push(b);
        rem = rem / 256;
        i = i + 1;
        assert(le_bytes(old_rem, k) == seq![b] + le_bytes(rem as nat, (k - 1) as nat));
        assert(data@ + le_bytes(rem as nat, (n - i) as nat) =~= before + le_bytes(old_rem, k));
    }
}

pub struct DataBuilder<F> {
    data: Vec<u8>,
    fds: Vec<Attachment<F>>,
}

impl<F> DataBuilder<F> {
    /// The room for the code is still there.
    pub closed spec fn wf(self) -> bool {
        self.data@.len() >= CODE_LEN
    }

    /// The bytes written so far, after the room reserved for the code.
    pub closed spec fn payload(self) -> Seq<u8> {
        self.data@.skip(CODE_LEN as int)
    }

    /// The descriptors written so far, in write order.
    pub closed spec fn attachments(self) -> Seq<Attachment<F>> {
        self.fds@
    }

    /// An empty payload with no descriptors.
    pub fn new() -> (b: Self)
        ensures
            b.wf(),
            b.payload() == Seq::<u8>::empty(),
            b.attachments() == Seq::<Attachment<F>>::empty(),
    {
        let mut data: Vec<u8> = Vec::new();
        push_le(&mut data, 0, CODE_LEN);
        proof {
            lemma_le_bytes_len(0, CODE_LEN as nat);
        }
        let b = DataBuilder { data, fds: Vec::new() };
        assert(b.data@.skip(CODE_LEN as int) =~= Seq::<u8>::empty());
        b
    }
}

impl<F> DataBuilder<F> {
    /// Seals this payload into a frame carrying `code`, by writing the code into the four
    /// bytes reserved for it.
    pub fn finish(self, code: u32) -> (m: Frame<F>)
        requires
            self.wf(),
        ensures
            m.data@ == encode_value(WireValue::U32(code)) + self.payload(),
            m.attachments@ == self.attachments(),
    {
        let DataBuilder { mut data, fds } = self;
        let ghost payload = data@.skip(CODE_LEN as int);
        let mut rem: u32 = code;
        let mut i: usize = 0;
        while i < CODE_LEN
            invariant
                i <= CODE_LEN,
                data@.len() >= CODE_LEN,
                data@.skip(CODE_LEN as int) == payload,
                data@.take(i as int) + le_bytes(rem as nat, (CODE_LEN - i) as nat) == le_bytes(
                    code as nat,
                    CODE_LEN as nat,
                ),
            decreases CODE_LEN - i,
        {
            let ghost before = data@;
            let ghost old_rem = rem as nat;
            let ghost k = (CODE_LEN - i) as nat;
            let b = (rem % 256) as u8;
            data.set(i, b);
            rem = rem / 256;
            assert(le_bytes(old_rem, k) == seq![b] + le_bytes(rem as nat, (k - 1) as nat));
            assert(data@.take(i + 1) =~= before.take(i as int).push(b));
            assert(data@.skip(CODE_LEN as int) =~= before.skip(CODE_LEN as int));
            i = i + 1;
        }
        proof {
            lemma_le_bytes_len(code as nat, CODE_LEN as nat);
            assert(data@ =~= data@.take(CODE_LEN as int) + data@.skip(CODE_LEN as int));
        }
        Frame { data, attachments: fds }
    }

    /// Appends `x`.
    pub fn write_u8(&mut self, x: u8) -> (r: Result<(), WriteError>)
        requires
            old(self).wf(),
        ensures
            final(self).wf(),
            r is Ok,
            final(self).payload() == old(self).payload() + encode_value(WireValue::U8(x)),
            final(self).attachments() == old(self).attachments(),
    {
        self.push_bytes(x as u64, 1);
        Ok(())
    }

    /// Appends `x`.
    pub fn write_i8(&mut self, x: i8) -> (r: Result<(), WriteError>)
        requires
            old(self).wf(),
        ensures
            final(self).wf(),
            r is Ok,
            final(self).payload() == old(self).payload() + encode_value(WireValue::I8(x)),
            final(self).attachments() == old(self).attachments(),
    {
        let bits: u64 = if x < 0 {
            (x as i64 + 0x100) as u64
        } else {
            x as u64
        };
        proof {
            lemma_byte_bounds();
        }
        self.push_bytes(bits, 1);
        Ok(())
    }

    /// Appends `x`.
    pub fn write_u16(&mut self, x: u16) -> (r: Result<(), WriteError>)
        requires
            old(self).wf(),
        ensures
            final(self).wf(),
            r is Ok,
            final(self).payload() == old(self).payload() + encode_value(WireValue::U16(x)),
            final(self).attachments() == old(self).attachments(),
    {
        self.push_bytes(x as u64, 2);
        Ok(())
    }

    /// Appends `x`.
    pub fn write_i16(&mut self, x: i16) -> (r: Result<(), WriteError>)
        requires
            old(self).wf(),
        ensures
            final(self).wf(),
            r is Ok,
            final(self).payload() == old(self).payload() + encode_value(WireValue::I16(x)),
            final(self).attachments() == old(self).attachments(),
    {
        let bits: u64 = if x < 0 {
            (x as i64 + 0x1_0000) as u64
        } else {
            x as u64
        };
        proof {
            lemma_byte_bounds();
        }
        self.push_bytes(bits, 2);
        Ok(())
    }

    /// Appends `x`.
    pub fn write_u32(&mut self, x: u32) -> (r: Result<(), WriteError>)
        requires
            old(self).wf(),
        ensures
            final(self).wf(),
            r is Ok,
            final(self).payload() == old(self).payload() + encode_value(WireValue::U32(x)),
            final(self).attachments() == old(self).attachments(),
    {
        self.push_bytes(x as u64, 4);
        Ok(())
    }

    /// Appends `x`.
    pub fn write_i32(&mut self, x: i32) -> (r: Result<(), WriteError>)
        requires
            old(self).wf(),
        ensures
            final(self).wf(),
            r is Ok,
            final(self).payload() == old(self).payload() + encode_value(WireValue::I32(x)),
            final(self).attachments() == old(self).attachments(),
    {
        let bits: u64 = if x < 0 {
            (x as i64 + 0x1_0000_0000) as u64
        } else {
            x as u64
        };
        proof {
            lemma_byte_bounds();
        }
        self.push_bytes(bits, 4);
        Ok(())
    }

    /// Appends `x`.
    pub fn write_u64(&mut self, x: u64) -> (r: Result<(), WriteError>)
        requires
            old(self).wf(),
        ensures
            final(self).wf(),
            r is Ok,
            final(self).payload() == old(self).payload() + encode_value(WireValue::U64(x)),
            final(self).attachments() == old(self).attachments(),
    {
        self.push_bytes(x, 8);
        Ok(())
    }

    /// Appends `x`.
    pub fn write_i64(&mut self, x: i64) -> (r: Result<(), WriteError>)
        requires
            old(self).wf(),
        ensures
            final(self).wf(),
            r is Ok,
            final(self).payload() == old(self).payload() + encode_value(WireValue::I64(x)),
            final(self).attachments() == old(self).attachments(),
    {
        let bits: u64 = if x < 0 {
            (x as i128 + 0x1_0000_0000_0000_0000i128) as u64
        } else {
            x as u64
        };
        proof {
            lemma_byte_bounds();
        }
        self.push_bytes(bits, 8);
        Ok(())
    }

    /// Appends `b` as one byte, `1` or `0`.
    pub fn write_bool(&mut self, b: bool) -> (r: Result<(), WriteError>)
        requires
            old(self).wf(),
        ensures
            final(self).wf(),
            r is Ok,
            final(self).payload() == old(self).payload() + encode_value(WireValue::Bool(b)),
            final(self).attachments() == old(self).attachments(),
    {
        let r = self.write_u8(if b { 1 } else { 0 });
        r
    }

    /// Appends `s` as its UTF-8 byte length and then those bytes; refuses a string whose
    /// length does not fit a `u32`, writing nothing.
    pub fn write_str(&mut self, s: &str) -> (r: Result<(), WriteError>)
        requires
            old(self).wf(),
        ensures
            final(self).wf(),
            r is Ok <==> encodable(WireValue::Str(s@)),
            r is Ok ==> final(self).payload() == old(self).payload() + encode_value(
                WireValue::Str(s@),
            ),
            r matches Err(e) ==> e is StringToLong && final(self).payload() == old(self).payload(),
            final(self).attachments() == old(self).attachments(),
    {
        let bytes = s.as_bytes();
        let len = bytes.len();
        assert(bytes@ == encode_utf8(s@));
        if len > u32::MAX as usize {
            return Err(WriteError::StringToLong);
        }
        self.push_bytes(len as u64, 4);
        let ghost before = self.data@;
        self.data.extend_from_slice(bytes);
        assert(self.data@ =~= before + bytes@);
        assert(before.len() >= CODE_LEN);
        assert(before.skip(CODE_LEN as int) == old(self).payload() + le_bytes(len as u64 as nat, 4));
        assert(self.data@.skip(CODE_LEN as int) =~= before.skip(CODE_LEN as int) + bytes@);
        assert(self.data@.skip(CODE_LEN as int) =~= old(self).payload() + (le_bytes(
            len as nat,
            4,
        ) + bytes@));
        Ok(())
    }

    /// Appends a descriptor this builder now owns.
    pub fn write_owned_fd(&mut self, fd: F) -> (r: Result<(), WriteError>)
        requires
            old(self).wf(),
        ensures
            final(self).wf(),
            r is Ok,
            final(self).payload() == old(self).payload(),
            final(self).attachments() == old(self).attachments().push(Attachment::Fd(fd)),
    {
        self.fds.push(Attachment::Fd(fd));
        Ok(())
    }

    /// Appends the ref that reaches `node_ref`.
    pub fn write_ref<T: ToRef>(&mut self, node_ref: &T) -> (r: Result<(), WriteError>)
        requires
            old(self).wf(),
        ensures
            final(self).wf(),
            r is Ok,
            final(self).payload() == old(self).payload(),
            final(self).attachments().len() == old(self).attachments().len() + 1,
            final(self).attachments().take(old(self).attachments().len() as int) == old(
                self,
            ).attachments(),
            final(self).attachments().last() is Ref,
            exists|r: Ref|
                call_ensures(T::to_ref, (node_ref,), r) && final(self).attachments().last()
                    == Attachment::<F>::Ref(r),
    {
        let r = node_ref.to_ref();
        self.fds.push(Attachment::Ref(r));
        assert(self.fds@.take(old(self).fds@.len() as int) =~= old(self).fds@);
        Ok(())
    }

    fn push_bytes(&mut self, v: u64, n: usize)
        requires
            old(self).wf(),
        ensures
            final(self).wf(),
            final(self).payload() == old(self).payload() + le_bytes(v as nat, n as nat),
            final(self).attachments() == old(self).attachments(),
    {
        let ghost before = self.data@;
        push_le(&mut self.data, v, n);
        assert(self.data@.skip(CODE_LEN as int) =~= before.skip(CODE_LEN as int) + le_bytes(
            v as nat,
            n as nat,
        ));
    }
}

impl<F> Default for DataBuilder<F> {
    fn default() -> (b: Self)
        ensures
            b.wf(),
            b.payload() == Seq::<u8>::empty(),
            b.attachments() == Seq::<Attachment<F>>::empty(),
    {
        Self::new()
    }
}

pub struct DataReader<F> {
    data: Vec<u8>,
    cursor: usize,
    /// the descriptors not yet read, last one first, so the next is at the end
    fds: Vec<F>,
}

impl<F> DataReader<F> {
    /// The cursor sits between the code and the end of the message.
    pub closed spec fn wf(self) -> bool {
        CODE_LEN <= self.cursor <= self.data@.len()
    }

    /// The whole message, code included.
    pub closed spec fn bytes(self) -> Seq<u8> {
        self.data@
    }

    /// How far into the message the next read starts.
    pub closed spec fn position(self) -> nat {
        self.cursor as nat
    }

    /// The bytes not yet read.
    pub closed spec fn remaining(self) -> Seq<u8> {
        self.data@.skip(self.cursor as int)
    }

    /// The descriptors not yet read, in the order they will be read.
    pub closed spec fn pending_fds(self) -> Seq<F> {
        self.fds@.reverse()
    }

    /// What a read of a fixed-width kind does: on success it hands back the value at the
    /// front of the unread bytes (`got`) and moves past it; where too few bytes are left
    /// it hands back nothing and moves nowhere. Neither touches the descriptors.
    pub open spec fn reads_fixed(self, after: Self, k: WireKind, got: Option<WireValue>) -> bool {
        &&& after.wf()
        &&& after.bytes() == self.bytes()
        &&& after.pending_fds() == self.pending_fds()
        &&& match decode_value(k, self.remaining()) {
            Some((v, n)) => {
                &&& got == Some(v)
                &&& after.position() == self.position() + n
                &&& after.remaining() == self.remaining().skip(n as int)
            },
            None => {
                &&& got is None
                &&& after.position() == self.position()
                &&& after.remaining() == self.remaining()
            },
        }
    }

    /// A fixed-width read of the kind of value at the front of the unread bytes hands
    /// that value back and leaves exactly what followed it unread.
    pub proof fn law_read_what_was_written(
        self,
        after: Self,
        v: WireValue,
        rest: Seq<u8>,
        got: Option<WireValue>,
    )
        requires
            v !is Str,
            self.remaining() == encode_value(v) + rest,
            self.reads_fixed(after, kind_of(v), got),
        ensures
            got == Some(v),
            after.remaining() == rest,
    {
        lemma_decode_encode_value(v, rest);
    }

    /// A string read where a string was written hands back its characters and leaves
    /// exactly what followed it unread; `got` and `after` are what `read_string`'s
    /// contract says of a successful read.
    pub proof fn law_read_string_what_was_written(
        self,
        after: Self,
        chars: Seq<char>,
        rest: Seq<u8>,
        got: Seq<char>,
    )
        requires
            encodable(WireValue::Str(chars)),
            self.remaining() == encode_value(WireValue::Str(chars)) + rest,
            self.position() <= after.position(),
            after.remaining() == self.remaining().skip(after.position() - self.position()),
            decode_value(WireKind::Str, self.remaining()) == Some(
                (WireValue::Str(got), (after.position() - self.position()) as nat),
            ),
        ensures
            got == chars,
            after.remaining() == rest,
    {
        lemma_decode_encode_value(WireValue::Str(chars), rest);
    }

    /// The unread bytes are the message from the cursor on.
    pub proof fn lemma_remaining(self)
        requires
            self.wf(),
        ensures
            self.remaining() == self.bytes().skip(self.position() as int),
            self.position() <= self.bytes().len(),
    {
    }

    /// Splits a received message into its transaction code and a reader over the rest,
    /// which hands out `fds` in the order given. A message too short to hold a code is
    /// refused.
    pub fn from_wire(data: &[u8], fds: Vec<F>) -> (r: Result<(u32, Self), ReadError>)
        ensures
            r is Err <==> data@.len() < CODE_LEN,
            r matches Err(e) ==> e is NotEnoughBytes,
            r matches Ok((code, reader)) ==> {
                &&& decode_value(WireKind::U32, data@) == Some((WireValue::U32(code), CODE_LEN as nat))
                &&& reader.wf()
                &&& reader.bytes() == data@
                &&& reader.position() == CODE_LEN
                &&& reader.remaining() == data@.skip(CODE_LEN as int)
                &&& reader.pending_fds() == fds@
            },
    {
        if data.len() < CODE_LEN {
            return Err(ReadError::NotEnoughBytes);
        }
        let mut fds = fds;
        let mut pending: Vec<F> = Vec::new();
        let ghost given = fds@;
        while fds.len() > 0
            invariant
                fds@ + pending@.reverse() == given,
            decreases fds.len(),
        {
            let ghost before_fds = fds@;
            let ghost before_pending = pending@;
            let fd = fds.pop().unwrap();
            pending.push(fd);
            assert(pending@.reverse() =~= seq![fd] + before_pending.reverse());
            assert(before_fds =~= fds@.push(fd));
            assert(fds@ + pending@.reverse() =~= before_fds + before_pending.reverse());
        }
        assert(pending@.reverse() =~= given);
        let mut reader = DataReader { data: slice_to_vec(data), cursor: 0, fds: pending };
        assert(reader.remaining().take(CODE_LEN as int) =~= data@.take(CODE_LEN as int));
        let code = match reader.read_le(CODE_LEN) {
            Ok(v) => {
                proof {
                    lemma_le_value_bound(data@.take(CODE_LEN as int));
                    lemma_byte_bounds();
                }
                v as u32
            },
            Err(e) => return Err(e),
        };
        Ok((code, reader))
    }

    /// Reads the next `n` bytes as a little-endian number, or moves nowhere if fewer are
    /// left.
    fn read_le(&mut self, n: usize) -> (r: Result<u64, ReadError>)
        requires
            n <= 8,
            old(self).cursor <= old(self).data@.len(),
        ensures
            final(self).data@ == old(self).data@,
            final(self).fds@ == old(self).fds@,
            final(self).cursor <= final(self).data@.len(),
            old(self).remaining().len() >= n ==> (r matches Ok(v) && v as nat == le_value(
                old(self).remaining().take(n as int),
            ) && final(self).cursor == old(self).cursor + n),
            old(self).remaining().len() < n ==> (r matches Err(e) && e is NotEnoughBytes
                && final(self).cursor == old(self).cursor),            old(self).remaining().len() >= n ==> final(self).remaining() == old(
                self,
            ).remaining().skip(n as int),
    {
        if self.data.len() - self.cursor < n {
            return Err(ReadError::NotEnoughBytes);
        }
        let start = self.cursor;
        let ghost chunk = self.data@.subrange(start as int, start + n);
        let len = self.data.len();
        let mut acc: u64 = 0;
        let mut i: usize = n;
        proof {
            lemma_byte_bounds();
        }
        while i > 0
            invariant
                i <= n <= 8,
                len == self.data@.len(),
                start + n <= len,
                chunk == self.data@.subrange(start as int, start + n),
                acc as nat == le_value(chunk.skip(i as int)),
                acc < byte_bound((n - i) as nat),
                byte_bound(8) == 0x1_0000_0000_0000_0000,
            decreases i,
        {
            i = i - 1;
            let b = self.data[start + i];
            proof {
                lemma_byte_bound_mono((n - i) as nat, 8);
                assert(chunk.skip(i as int).drop_first() =~= chunk.skip(i + 1));
                assert(chunk.skip(i as int)[0] == b);
            }
            acc = acc * 256 + b as u64;
        }
        assert(chunk.skip(0) =~= self.data@.skip(start as int).take(n as int));
        self.cursor = start + n;
        assert(self.data@.skip(self.cursor as int) =~= self.data@.skip(start as int).skip(
            n as int,
        ));
        Ok(acc)
    }

    /// Reads a `u8`.
    pub fn read_u8(&mut self) -> (r: Result<u8, ReadError>)
        requires
            old(self).wf(),
        ensures
            old(self).reads_fixed(
                *final(self),
                WireKind::U8,
                match r {
                    Ok(x) => Some(WireValue::U8(x)),
                    Err(_) => None,
                },
            ),
            r matches Err(e) ==> e is NotEnoughBytes,
    {
        match self.read_le(1) {
            Ok(v) => {
                proof {
                    lemma_le_value_bound(old(self).remaining().take(1));
                    lemma_byte_bounds();
                }
                Ok(v as u8)
            },
            Err(e) => Err(e),
        }
    }

    /// Reads an `i8`.
    pub fn read_i8(&mut self) -> (r: Result<i8, ReadError>)
        requires
            old(self).wf(),
        ensures
            old(self).reads_fixed(
                *final(self),
                WireKind::I8,
                match r {
                    Ok(x) => Some(WireValue::I8(x)),
                    Err(_) => None,
                },
            ),
            r matches Err(e) ==> e is NotEnoughBytes,
    {
        match self.read_le(1) {
            Ok(v) => {
                proof {
                    lemma_le_value_bound(old(self).remaining().take(1));
                    lemma_byte_bounds();
                }
                let x: i8 = if v >= 0x80 {
                    (v as i64 - 0x100) as i8
                } else {
                    v as i8
                };
                Ok(x)
            },
            Err(e) => Err(e),
        }
    }

    /// Reads a `u16`.
    pub fn read_u16(&mut self) -> (r: Result<u16, ReadError>)
        requires
            old(self).wf(),
        ensures
            old(self).reads_fixed(
                *final(self),
                WireKind::U16,
                match r {
                    Ok(x) => Some(WireValue::U16(x)),
                    Err(_) => None,
                },
            ),
            r matches Err(e) ==> e is NotEnoughBytes,
    {
        match self.read_le(2) {
            Ok(v) => {
                proof {
                    lemma_le_value_bound(old(self).remaining().take(2));
                    lemma_byte_bounds();
                }
                Ok(v as u16)
            },
            Err(e) => Err(e),
        }
    }

    /// Reads an `i16`.
    pub fn read_i16(&mut self) -> (r: Result<i16, ReadError>)
        requires
            old(self).wf(),
        ensures
            old(self).reads_fixed(
                *final(self),
                WireKind::I16,
                match r {
                    Ok(x) => Some(WireValue::I16(x)),
                    Err(_) => None,
                },
            ),
            r matches Err(e) ==> e is NotEnoughBytes,
    {
        match self.read_le(2) {
            Ok(v) => {
                proof {
                    lemma_le_value_bound(old(self).remaining().take(2));
                    lemma_byte_bounds();
                }
                let x: i16 = if v >= 0x8000 {
                    (v as i64 - 0x1_0000) as i16
                } else {
                    v as i16
                };
                Ok(x)
            },
            Err(e) => Err(e),
        }
    }

    /// Reads a `u32`.
    pub fn read_u32(&mut self) -> (r: Result<u32, ReadError>)
        requires
            old(self).wf(),
        ensures
            old(self).reads_fixed(
                *final(self),
                WireKind::U32,
                match r {
                    Ok(x) => Some(WireValue::U32(x)),
                    Err(_) => None,
                },
            ),
            r matches Err(e) ==> e is NotEnoughBytes,
    {
        match self.read_le(4) {
            Ok(v) => {
                proof {
                    lemma_le_value_bound(old(self).remaining().take(4));
                    lemma_byte_bounds();
                }
                Ok(v as u32)
            },
            Err(e) => Err(e),
        }
    }

    /// Reads an `i32`.
    pub fn read_i32(&mut self) -> (r: Result<i32, ReadError>)
        requires
            old(self).wf(),
        ensures
            old(self).reads_fixed(
                *final(self),
                WireKind::I32,
                match r {
                    Ok(x) => Some(WireValue::I32(x)),
                    Err(_) => None,
                },
            ),
            r matches Err(e) ==> e is NotEnoughBytes,
    {
        match self.read_le(4) {
            Ok(v) => {
                proof {
                    lemma_le_value_bound(old(self).remaining().take(4));
                    lemma_byte_bounds();
                }
                let x: i32 = if v >= 0x8000_0000 {
                    (v as i64 - 0x1_0000_0000) as i32
                } else {
                    v as i32
                };
                Ok(x)
            },
            Err(e) => Err(e),
        }
    }

    /// Reads a `u64`.
    pub fn read_u64(&mut self) -> (r: Result<u64, ReadError>)
        requires
            old(self).wf(),
        ensures
            old(self).reads_fixed(
                *final(self),
                WireKind::U64,
                match r {
                    Ok(x) => Some(WireValue::U64(x)),
                    Err(_) => None,
                },
            ),
            r matches Err(e) ==> e is NotEnoughBytes,
    {
        match self.read_le(8) {
            Ok(v) => Ok(v),
            Err(e) => Err(e),
        }
    }

    /// Reads an `i64`.
    pub fn read_i64(&mut self) -> (r: Result<i64, ReadError>)
        requires
            old(self).wf(),
        ensures
            old(self).reads_fixed(
                *final(self),
                WireKind::I64,
                match r {
                    Ok(x) => Some(WireValue::I64(x)),
                    Err(_) => None,
                },
            ),
            r matches Err(e) ==> e is NotEnoughBytes,
    {
        match self.read_le(8) {
            Ok(v) => {
                proof {
                    lemma_le_value_bound(old(self).remaining().take(8));
                    lemma_byte_bounds();
                }
                let x: i64 = if v >= 0x8000_0000_0000_0000 {
                    (v as i128 - 0x1_0000_0000_0000_0000i128) as i64
                } else {
                    v as i64
                };
                Ok(x)
            },
            Err(e) => Err(e),
        }
    }

    /// Reads a `bool`: any byte but `0` is `true`.
    pub fn read_bool(&mut self) -> (r: Result<bool, ReadError>)
        requires
            old(self).wf(),
        ensures
            old(self).reads_fixed(
                *final(self),
                WireKind::Bool,
                match r {
                    Ok(x) => Some(WireValue::Bool(x)),
                    Err(_) => None,
                },
            ),
            r matches Err(e) ==> e is NotEnoughBytes,
    {
        match self.read_le(1) {
            Ok(v) => Ok(v != 0),
            Err(e) => Err(e),
        }
    }

    /// Takes the next descriptor, or reports that the message carried no more.
    pub fn read_fd(&mut self) -> (r: Result<F, ReadError>)
        requires
            old(self).wf(),
        ensures
            final(self).wf(),
            final(self).bytes() == old(self).bytes(),
            final(self).position() == old(self).position(),
            final(self).remaining() == old(self).remaining(),
            old(self).pending_fds().len() > 0 ==> r == Ok::<F, ReadError>(
                old(self).pending_fds()[0],
            ) && final(self).pending_fds() == old(self).pending_fds().drop_first(),
            old(self).pending_fds().len() == 0 ==> (r matches Err(e) && e is MissingDescriptor
                && final(self).pending_fds() == old(self).pending_fds()),
    {
        let ghost before = self.fds@;
        match self.fds.pop() {
            Some(fd) => {
                assert(before =~= self.fds@.push(fd));
                assert(before.reverse() =~= seq![fd] + self.fds@.reverse());
                Ok(fd)
            },
            None => Err(ReadError::MissingDescriptor),
        }
    }
}

impl<F> DataReader<F> {
    /// Takes the next `n` bytes, or moves nowhere if fewer are left.
    fn read_bytes(&mut self, n: usize) -> (r: Result<Vec<u8>, ReadError>)
        requires
            old(self).wf(),
        ensures
            final(self).wf(),
            final(self).data@ == old(self).data@,
            final(self).fds@ == old(self).fds@,
            old(self).remaining().len() >= n ==> (r matches Ok(v) && v@ == old(
                self,
            ).remaining().take(n as int) && final(self).cursor == old(self).cursor + n),
            old(self).remaining().len() < n ==> (r matches Err(e) && e is NotEnoughBytes
                && final(self).cursor == old(self).cursor),
    {
        if self.data.len() - self.cursor < n {
            return Err(ReadError::NotEnoughBytes);
        }
        let start = self.cursor;
        let bytes = slice_to_vec(slice_subrange(self.data.as_slice(), start, start + n));
        assert(bytes@ =~= self.data@.skip(start as int).take(n as int));
        self.cursor = start + n;
        Ok(bytes)
    }

    /// Reads a string: a `u32` byte length, then that many bytes of UTF-8.
    ///
    /// Where the length is there but the bytes are not, the length stays read; where the
    /// bytes are there but are not UTF-8, they stay read too.
    pub fn read_string(&mut self) -> (r: Result<String, ReadError>)
        requires
            old(self).wf(),
        ensures
            final(self).wf(),
            final(self).bytes() == old(self).bytes(),
            final(self).pending_fds() == old(self).pending_fds(),
            old(self).position() <= final(self).position(),
            final(self).remaining() == old(self).remaining().skip(
                final(self).position() - old(self).position(),
            ),
            r is Ok <==> decode_value(WireKind::Str, old(self).remaining()) is Some,
            r matches Ok(s) ==> decode_value(WireKind::Str, old(self).remaining()) == Some(
                (WireValue::Str(s@), (final(self).position() - old(self).position()) as nat),
            ),
            old(self).remaining().len() < 4 ==> (r matches Err(e) && e is NotEnoughBytes
                && final(self).position() == old(self).position()),
            old(self).remaining().len() >= 4 ==> ({
                let rem = old(self).remaining();
                let n = le_value(rem.take(4));
                let body = rem.subrange(4, rem.len() as int);
                &&& body.len() < n ==> (r matches Err(e) && e is NotEnoughBytes
                    && final(self).position() == old(self).position() + 4)
                &&& body.len() >= n ==> final(self).position() == old(self).position() + 4 + n
                &&& (body.len() >= n && !valid_utf8(body.take(n as int))) ==> (r matches Err(e)
                    && e is StringNotUtf8)
            }),
    {
        let len = match self.read_u32() {
            Ok(len) => len,
            Err(e) => return Err(e),
        };
        let ghost after_len = *self;
        proof {
            let rem = old(self).remaining();
            assert(after_len.remaining() =~= rem.subrange(4, rem.len() as int));
            lemma_le_value_bound(rem.take(4));
            lemma_byte_bounds();
            assert(len as nat == le_value(rem.take(4)));
        }
        let bytes = match self.read_bytes(len as usize) {
            Ok(bytes) => bytes,
            Err(e) => return Err(e),
        };
        let ghost chunk = bytes@;
        match String::from_utf8(bytes) {
            Ok(s) => {
                assert(s@ == decode_utf8(chunk));
                Ok(s)
            },
            Err(e) => Err(ReadError::StringNotUtf8(e)),
        }
    }
}

/// A frame splits back into the code it was sealed with and the payload it was built
/// from: the reader over it starts exactly where the payload does.
pub proof fn law_frame_roundtrip(code: u32, payload: Seq<u8>)
    ensures
        ({
            let frame = encode_value(WireValue::U32(code)) + payload;
            &&& frame.len() >= CODE_LEN
            &&& decode_value(WireKind::U32, frame) == Some((WireValue::U32(code), CODE_LEN as nat))
            &&& frame.skip(CODE_LEN as int) == payload
        }),
{
    let head = encode_value(WireValue::U32(code));
    lemma_decode_encode_value(WireValue::U32(code), payload);
    lemma_le_bytes_len(code as nat, 4);
    assert((head + payload).skip(CODE_LEN as int) =~= payload);
}

} // verus!
