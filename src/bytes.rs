//! Little-endian integers, sentinel-optional buffers, padding and a byte cursor.
use vstd::prelude::*;

use crate::error::Error;

verus! {

/// The little-endian `u16` stored at `s[i..i + 2]`.
pub open spec fn le16(s: Seq<u8>, i: int) -> u16 {
    (s[i] as u16) | ((s[i + 1] as u16) << 8u16)
}

/// The little-endian `u32` stored at `s[i..i + 4]`.
pub open spec fn le32(s: Seq<u8>, i: int) -> u32 {
    (s[i] as u32) | ((s[i + 1] as u32) << 8u32) | ((s[i + 2] as u32) << 16u32) | ((s[i + 3] as u32)
        << 24u32)
}

/// The two little-endian bytes of `v`.
pub open spec fn u16_bytes(v: u16) -> Seq<u8> {
    seq![(v & 0xff) as u8, (v >> 8u16) as u8]
}

/// The four little-endian bytes of `v`.
pub open spec fn u32_bytes(v: u32) -> Seq<u8> {
    seq![(v & 0xff) as u8, ((v >> 8u32) & 0xff) as u8, ((v >> 16u32) & 0xff) as u8, (v >> 24u32) as u8]
}

/// `n` copies of the byte `b`.
pub open spec fn fill(b: u8, n: nat) -> Seq<u8> {
    Seq::new(n, |_i: int| b)
}

/// Every byte of `s` is the sentinel `0xFF`.
pub open spec fn all_ff(s: Seq<u8>) -> bool {
    forall|i: int| 0 <= i < s.len() ==> s[i] == 0xFF
}

/// What a sentinel-optional buffer holds: nothing when every byte is `0xFF`.
pub open spec fn sentinel_opt(s: Seq<u8>) -> Option<Seq<u8>> {
    if all_ff(s) {
        None
    } else {
        Some(s)
    }
}

/// The contents of an optional array, as a sequence.
pub open spec fn opt_view<const N: usize>(o: Option<[u8; N]>) -> Option<Seq<u8>> {
    match o {
        Some(a) => Some(a@),
        None => None,
    }
}

/// The bytes of a sentinel-optional buffer: its contents, or `N` sentinel bytes.
pub open spec fn sentinel_bytes<const N: usize>(o: Option<[u8; N]>) -> Seq<u8> {
    match o {
        Some(a) => a@,
        None => fill(0xFF, N as nat),
    }
}

/// An optional buffer in canonical form: a present one is not all sentinel bytes.
pub open spec fn canonical_opt<const N: usize>(o: Option<[u8; N]>) -> bool {
    match o {
        Some(a) => !all_ff(a@),
        None => true,
    }
}

/// The bytes that bring `pos` up to the next multiple of `align` (none if aligned).
pub open spec fn align_pad(pos: int, align: int) -> int {
    if pos % align == 0 {
        0
    } else {
        align - pos % align
    }
}

pub proof fn lemma_le16_round_trip(v: u16)
    ensures
        le16(u16_bytes(v), 0) == v,
        u16_bytes(v).len() == 2,
{
    let s = u16_bytes(v);
    assert(s[0] == (v & 0xff) as u8 && s[1] == (v >> 8u16) as u8);
    assert((((v & 0xff) as u8) as u16) | ((((v >> 8u16) as u8) as u16) << 8u16) == v)
        by (bit_vector);
}

pub proof fn lemma_le32_round_trip(v: u32)
    ensures
        le32(u32_bytes(v), 0) == v,
        u32_bytes(v).len() == 4,
{
    let s = u32_bytes(v);
    assert(s[0] == (v & 0xff) as u8 && s[1] == ((v >> 8u32) & 0xff) as u8 && s[2] == ((v >> 16u32)
        & 0xff) as u8 && s[3] == (v >> 24u32) as u8);
    assert((((v & 0xff) as u8) as u32) | (((((v >> 8u32) & 0xff) as u8) as u32) << 8u32) | (((((v
        >> 16u32) & 0xff) as u8) as u32) << 16u32) | ((((v >> 24u32) as u8) as u32) << 24u32) == v)
        by (bit_vector);
}

/// A sentinel-optional buffer in canonical form reads back as what was written.
pub proof fn lemma_sentinel_round_trip<const N: usize>(o: Option<[u8; N]>)
    requires
        canonical_opt(o),
    ensures
        sentinel_opt(sentinel_bytes(o)) == opt_view(o),
        sentinel_bytes(o).len() == N,
{
    if o is None {
        assert(all_ff(fill(0xFF, N as nat)));
    }
}

/// A cursor over bytes: what was read so far ends at `pos`.
pub struct ByteReader {
    pub data: Vec<u8>,
    pub pos: usize,
}

impl ByteReader {
    /// The `n` bytes that start at the cursor.
    pub open spec fn window(&self, n: int) -> Seq<u8> {
        self.data@.subrange(self.pos as int, self.pos + n)
    }

    /// At least `n` bytes remain after the cursor.
    pub open spec fn has(&self, n: int) -> bool {
        self.pos + n <= self.data@.len()
    }

    pub fn new(data: Vec<u8>) -> (r: Self)
        ensures
            r.data@ == data@,
            r.pos == 0,
    {
        ByteReader { data, pos: 0 }
    }

    pub fn position(&self) -> (r: usize)
        ensures
            r == self.pos,
    {
        self.pos
    }

    pub fn len(&self) -> (r: usize)
        ensures
            r == self.data@.len(),
    {
        self.data.len()
    }

    /// Moves the cursor to `pos`, which may lie past the end (reads then fail).
    pub fn seek(&mut self, pos: usize)
        ensures
            final(self).data@ == old(self).data@,
            final(self).pos == pos,
    {
        self.pos = pos;
    }

    /// Moves the cursor `n` bytes on.
    pub fn skip(&mut self, n: usize) -> (r: Result<(), Error>)
        ensures
            final(self).data@ == old(self).data@,
            r is Ok <==> old(self).has(n as int),
            r is Ok ==> final(self).pos == old(self).pos + n,
            r is Err ==> r == Err::<(), Error>(Error::UnexpectedEof) && final(self).pos == old(self).pos,
    {
        if self.pos > self.data.len() || n > self.data.len() - self.pos {
            return Err(Error::UnexpectedEof);
        }
        self.pos = self.pos + n;
        Ok(())
    }

    /// Moves the cursor on to the next multiple of `align`, unless it is already on one.
    pub fn skip_aligned(&mut self, align: usize) -> (r: Result<(), Error>)
        requires
            align > 0,
        ensures
            final(self).data@ == old(self).data@,
            r is Ok <==> old(self).has(align_pad(old(self).pos as int, align as int)),
            r is Ok ==> final(self).pos == old(self).pos + align_pad(old(self).pos as int, align as int),
            r is Err ==> r == Err::<(), Error>(Error::UnexpectedEof),
    {
        let rem = self.pos % align;
        if rem == 0 {
            if self.pos > self.data.len() {
                return Err(Error::UnexpectedEof);
            }
            Ok(())
        } else {
            self.skip(align - rem)
        }
    }

    pub fn read_u8(&mut self) -> (r: Result<u8, Error>)
        ensures
            final(self).data@ == old(self).data@,
            r is Ok <==> old(self).has(1),
            r matches Ok(v) ==> v == old(self).data@[old(self).pos as int] && final(self).pos
                == old(self).pos + 1,
            r is Err ==> r == Err::<u8, Error>(Error::UnexpectedEof),
    {
        if self.pos >= self.data.len() {
            return Err(Error::UnexpectedEof);
        }
        let v = self.data[self.pos];
        self.pos = self.pos + 1;
        Ok(v)
    }

    pub fn read_u16(&mut self) -> (r: Result<u16, Error>)
        ensures
            final(self).data@ == old(self).data@,
            r is Ok <==> old(self).has(2),
            r matches Ok(v) ==> v == le16(old(self).data@, old(self).pos as int) && final(self).pos
                == old(self).pos + 2,
            r is Err ==> r == Err::<u16, Error>(Error::UnexpectedEof),
    {
        if self.pos > self.data.len() || self.data.len() - self.pos < 2 {
            return Err(Error::UnexpectedEof);
        }
        let p = self.pos;
        let v = (self.data[p] as u16) | ((self.data[p + 1] as u16) << 8u16);
        self.pos = p + 2;
        Ok(v)
    }

    pub fn read_u32(&mut self) -> (r: Result<u32, Error>)
        ensures
            final(self).data@ == old(self).data@,
            r is Ok <==> old(self).has(4),
            r matches Ok(v) ==> v == le32(old(self).data@, old(self).pos as int) && final(self).pos
                == old(self).pos + 4,
            r is Err ==> r == Err::<u32, Error>(Error::UnexpectedEof),
    {
        if self.pos > self.data.len() || self.data.len() - self.pos < 4 {
            return Err(Error::UnexpectedEof);
        }
        let p = self.pos;
        let v = (self.data[p] as u32) | ((self.data[p + 1] as u32) << 8u32) | ((self.data[p
            + 2] as u32) << 16u32) | ((self.data[p + 3] as u32) << 24u32);
        self.pos = p + 4;
        Ok(v)
    }

    /// Reads the next `n` bytes.
    pub fn read_vec(&mut self, n: usize) -> (r: Result<Vec<u8>, Error>)
        ensures
            final(self).data@ == old(self).data@,
            r is Ok <==> old(self).has(n as int),
            r matches Ok(v) ==> v@ == old(self).window(n as int) && final(self).pos == old(self).pos
                + n,
            r is Err ==> r == Err::<Vec<u8>, Error>(Error::UnexpectedEof),
    {
        if self.pos > self.data.len() || self.data.len() - self.pos < n {
            return Err(Error::UnexpectedEof);
        }
        let p = self.pos;
        let len = self.data.len();
        let mut v: Vec<u8> = Vec::new();
        let mut i: usize = 0;
        while i < n
            invariant
                p + n <= self.data@.len(),
                len == self.data@.len(),
                i <= n,
                v@ == self.data@.subrange(p as int, p + i),
            decreases n - i,
        {
            v.push(self.data[p + i]);
            i = i + 1;
            assert(v@ =~= self.data@.subrange(p as int, p + i));
        }
        self.pos = p + n;
        Ok(v)
    }

    /// Reads the next `N` bytes into an array.
    pub fn read_array<const N: usize>(&mut self) -> (r: Result<[u8; N], Error>)
        ensures
            final(self).data@ == old(self).data@,
            r is Ok <==> old(self).has(N as int),
            r matches Ok(a) ==> a@ == old(self).window(N as int) && final(self).pos == old(self).pos
                + N,
            r is Err ==> r == Err::<[u8; N], Error>(Error::UnexpectedEof),
    {
        if self.pos > self.data.len() || self.data.len() - self.pos < N {
            return Err(Error::UnexpectedEof);
        }
        let p = self.pos;
        let len = self.data.len();
        let mut a = [0u8; N];
        let mut i: usize = 0;
        while i < N
            invariant
                p + N <= self.data@.len(),
                len == self.data@.len(),
                i <= N,
                a@.len() == N,
                forall|j: int| 0 <= j < i ==> a@[j] == self.data@[p + j],
            decreases N - i,
        {
            a[i] = self.data[p + i];
            i = i + 1;
        }
        assert(a@ =~= self.data@.subrange(p as int, p + N));
        self.pos = p + N;
        Ok(a)
    }

    /// Reads a sentinel-optional buffer of `N` bytes: `None` when all of them are `0xFF`.
    pub fn read_optional<const N: usize>(&mut self) -> (r: Result<Option<[u8; N]>, Error>)
        ensures
            final(self).data@ == old(self).data@,
            r is Ok <==> old(self).has(N as int),
            r matches Ok(o) ==> opt_view(o) == sentinel_opt(old(self).window(N as int))
                && final(self).pos == old(self).pos + N,
            r is Err ==> r == Err::<Option<[u8; N]>, Error>(Error::UnexpectedEof),
    {
        let a = self.read_array::<N>()?;
        if is_all_ff(&a) {
            Ok(None)
        } else {
            Ok(Some(a))
        }
    }
}

/// The little-endian `u16` at `s[i..i + 2]`.
pub fn get_u16(s: &[u8], i: usize) -> (r: u16)
    requires
        i + 2 <= s@.len(),
    ensures
        r == le16(s@, i as int),
{
    (s[i] as u16) | ((s[i + 1] as u16) << 8u16)
}

/// The little-endian `u32` at `s[i..i + 4]`.
pub fn get_u32(s: &[u8], i: usize) -> (r: u32)
    requires
        i + 4 <= s@.len(),
    ensures
        r == le32(s@, i as int),
{
    (s[i] as u32) | ((s[i + 1] as u32) << 8u32) | ((s[i + 2] as u32) << 16u32) | ((s[i + 3] as u32)
        << 24u32)
}

/// The `N` bytes at `s[i..i + N]`, as an array.
pub fn get_array<const N: usize>(s: &[u8], i: usize) -> (r: [u8; N])
    requires
        i + N <= s@.len(),
    ensures
        r@ == s@.subrange(i as int, i + N),
{
    let len = s.len();
    let mut a = [0u8; N];
    let mut j: usize = 0;
    while j < N
        invariant
            i + N <= s@.len(),
            len == s@.len(),
            j <= N,
            a@.len() == N,
            forall|k: int| 0 <= k < j ==> a@[k] == s@[i + k],
        decreases N - j,
    {
        a[j] = s[i + j];
        j = j + 1;
    }
    assert(a@ =~= s@.subrange(i as int, i + N));
    a
}

/// The `N` bytes at `s[i..i + N]` as a sentinel-optional buffer.
pub fn get_optional<const N: usize>(s: &[u8], i: usize) -> (r: Option<[u8; N]>)
    requires
        i + N <= s@.len(),
    ensures
        opt_view(r) == sentinel_opt(s@.subrange(i as int, i + N)),
{
    let a = get_array::<N>(s, i);
    if is_all_ff(&a) {
        None
    } else {
        Some(a)
    }
}

/// A flags byte whose bit 0 is `a` and bit 1 is `b`.
pub open spec fn flag_byte(a: bool, b: bool) -> u8 {
    if a {
        if b {
            3
        } else {
            1
        }
    } else if b {
        2
    } else {
        0
    }
}

pub fn make_flag_byte(a: bool, b: bool) -> (r: u8)
    ensures
        r == flag_byte(a, b),
{
    if a {
        if b {
            3
        } else {
            1
        }
    } else if b {
        2
    } else {
        0
    }
}

/// The bits of a flags byte read back as they were set.
pub proof fn lemma_flag_byte(a: bool, b: bool)
    ensures
        ((flag_byte(a, b) & 1u8) == 1u8) == a,
        ((flag_byte(a, b) & 2u8) == 2u8) == b,
{
    assert((0u8 & 1u8) == 0u8 && (0u8 & 2u8) == 0u8) by (bit_vector);
    assert((1u8 & 1u8) == 1u8 && (1u8 & 2u8) == 0u8) by (bit_vector);
    assert((2u8 & 1u8) == 0u8 && (2u8 & 2u8) == 2u8) by (bit_vector);
    assert((3u8 & 1u8) == 1u8 && (3u8 & 2u8) == 2u8) by (bit_vector);
}

/// Reading a little-endian `u32` looks only at its own four bytes.
pub proof fn lemma_le32_window(s: Seq<u8>, i: int, v: u32)
    requires
        0 <= i,
        i + 4 <= s.len(),
        s.subrange(i, i + 4) == u32_bytes(v),
    ensures
        le32(s, i) == v,
{
    lemma_le32_round_trip(v);
    let w = s.subrange(i, i + 4);
    assert(w[0] == s[i] && w[1] == s[i + 1] && w[2] == s[i + 2] && w[3] == s[i + 3]);
}

/// Reading a little-endian `u16` looks only at its own two bytes.
pub proof fn lemma_le16_window(s: Seq<u8>, i: int, v: u16)
    requires
        0 <= i,
        i + 2 <= s.len(),
        s.subrange(i, i + 2) == u16_bytes(v),
    ensures
        le16(s, i) == v,
{
    lemma_le16_round_trip(v);
    let w = s.subrange(i, i + 2);
    assert(w[0] == s[i] && w[1] == s[i + 1]);
}

/// A buffer of sentinel bytes is the sentinel fill.
pub proof fn lemma_all_ff_is_fill(s: Seq<u8>)
    requires
        all_ff(s),
    ensures
        s == fill(0xFF, s.len()),
{
    assert(s =~= fill(0xFF, s.len()));
}

/// The first `n` bytes of `s`.
pub fn slice_prefix(s: &[u8], n: usize) -> (r: Vec<u8>)
    requires
        n <= s@.len(),
    ensures
        r@ == s@.subrange(0, n as int),
{
    let mut v: Vec<u8> = Vec::new();
    let mut i: usize = 0;
    while i < n
        invariant
            n <= s@.len(),
            i <= n,
            v@ == s@.subrange(0, i as int),
        decreases n - i,
    {
        v.push(s[i]);
        i = i + 1;
        assert(v@ =~= s@.subrange(0, i as int));
    }
    v
}

/// Tells whether every byte of `s` is the sentinel `0xFF`.
pub fn is_all_ff(s: &[u8]) -> (r: bool)
    ensures
        r == all_ff(s@),
{
    let mut i: usize = 0;
    while i < s.len()
        invariant
            i <= s@.len(),
            forall|j: int| 0 <= j < i ==> s@[j] == 0xFF,
        decreases s@.len() - i,
    {
        if s[i] != 0xFF {
            return false;
        }
        i = i + 1;
    }
    true
}

pub fn write_u16(out: &mut Vec<u8>, v: u16)
    ensures
        final(out)@ == old(out)@ + u16_bytes(v),
{
    out.push((v & 0xff) as u8);
    out.push((v >> 8u16) as u8);
    assert(final(out)@ =~= old(out)@ + u16_bytes(v));
}

pub fn write_u32(out: &mut Vec<u8>, v: u32)
    ensures
        final(out)@ == old(out)@ + u32_bytes(v),
{
    out.push((v & 0xff) as u8);
    out.push(((v >> 8u32) & 0xff) as u8);
    out.push(((v >> 16u32) & 0xff) as u8);
    out.push((v >> 24u32) as u8);
    assert(final(out)@ =~= old(out)@ + u32_bytes(v));
}

/// Appends the bytes of `s`.
pub fn write_slice(out: &mut Vec<u8>, s: &[u8])
    ensures
        final(out)@ == old(out)@ + s@,
{
    let ghost start = out@;
    let mut i: usize = 0;
    while i < s.len()
        invariant
            i <= s@.len(),
            out@ == start + s@.subrange(0, i as int),
        decreases s@.len() - i,
    {
        out.push(s[i]);
        i = i + 1;
        assert(out@ =~= start + s@.subrange(0, i as int));
    }
    assert(s@.subrange(0, s@.len() as int) =~= s@);
}

/// Appends `length` copies of `fill`.
pub fn write_fill(out: &mut Vec<u8>, fill_byte: u8, length: u64)
    ensures
        final(out)@ == old(out)@ + fill(fill_byte, length as nat),
{
    let ghost start = out@;
    let mut i: u64 = 0;
    while i < length
        invariant
            i <= length,
            out@ == start + fill(fill_byte, i as nat),
        decreases length - i,
    {
        out.push(fill_byte);
        i = i + 1;
        assert(out@ =~= start + fill(fill_byte, i as nat));
    }
}

/// Appends a sentinel-optional buffer: its contents, or `N` bytes of `0xFF`.
pub fn write_optional<const N: usize>(out: &mut Vec<u8>, value: &Option<[u8; N]>)
    ensures
        final(out)@ == old(out)@ + sentinel_bytes(*value),
{
    match value {
        Some(a) => write_slice(out, a),
        None => write_fill(out, 0xFF, N as u64),
    }
}

/// Appends `fill_byte` until the length of `out` is a multiple of `align`.
pub fn write_aligned(out: &mut Vec<u8>, align: usize, fill_byte: u8)
    requires
        align > 0,
    ensures
        final(out)@ == old(out)@ + fill(fill_byte, align_pad(old(out)@.len() as int, align as int) as nat),
{
    let rem = out.len() % align;
    if rem == 0 {
        assert(old(out)@ + fill(fill_byte, 0) =~= old(out)@);
    } else {
        write_fill(out, fill_byte, (align - rem) as u64);
    }
}

} // verus!
